//! The backup protocol engine: storage path derivation, reference-file
//! resolution for differential backups, the server's request handling
//! decisions, and the client's per-file sweep accounting.

use vstd::prelude::*;

use crate::config::Config;
use crate::db::Db;
use crate::job::{BackupJob, JobStatus};
use crate::rsync::{Delta, RsyncError, Signature};

verus! {

/// One file travelling through the backup protocol: the job it belongs to,
/// its path on the client, and the signature or delta leg it carries.
#[derive(Debug)]
pub struct BackupFile {
    pub job_id: String,
    pub path: String,
    pub signature: Option<Signature>,
    pub delta: Option<Delta>,
    pub is_dir: bool,
}

/// The mathematical content of a [`BackupFile`].
#[verifier::ext_equal]
pub struct BackupFileV {
    pub job_id: Seq<char>,
    pub path: Seq<char>,
    pub signature: Option<Seq<u8>>,
    pub delta: Option<Seq<u8>>,
    pub is_dir: bool,
}

impl DeepView for BackupFile {
    type V = BackupFileV;

    open spec fn deep_view(&self) -> BackupFileV {
        BackupFileV {
            job_id: self.job_id@,
            path: self.path@,
            signature: self.signature.deep_view(),
            delta: self.delta.deep_view(),
            is_dir: self.is_dir,
        }
    }
}

/// Where a backed-up file lives on the server: the storage root, the client
/// name, the job identifier and the file's original path, joined by slashes
/// (the original path keeps its own leading slash, so the directory
/// structure is preserved verbatim).
pub open spec fn local_backup_path_v(
    storage: Seq<char>,
    client_name: Seq<char>,
    uuid: Seq<char>,
    file_path: Seq<char>,
) -> Seq<char> {
    storage + "/"@ + client_name + "/"@ + uuid + "/"@ + file_path
}

/// The storage path for one file of one job, exactly as
/// [`local_backup_path_v`] lays it out.
pub fn get_local_backup_file_path(cfg: &Config, job: &BackupJob, backup_file: &BackupFile) -> (r:
    String)
    ensures
        r@ == local_backup_path_v(
            cfg.backup_storage_path@,
            job.client.name@,
            job.uuid@,
            backup_file.path@,
        ),
{
    let mut out = String::new();
    out.append(cfg.backup_storage_path.as_str());
    out.append("/");
    out.append(job.client.name.as_str());
    out.append("/");
    out.append(job.uuid.as_str());
    out.append("/");
    out.append(backup_file.path.as_str());
    proof {
        assert(out@ =~= local_backup_path_v(
            cfg.backup_storage_path@,
            job.client.name@,
            job.uuid@,
            backup_file.path@,
        ));
    }
    out
}

/// The empty reference used for full backups: a delta against it carries the
/// whole file.
pub fn dev_null_path() -> (r: String)
    ensures
        r@ == "/dev/null"@,
{
    String::from_str("/dev/null")
}

/// The wire record for one file of a job before any protocol leg has run:
/// no signature, no delta.
pub fn prepare_backup_file(job: &BackupJob, path: &str) -> (r: BackupFile)
    ensures
        r.deep_view() == (BackupFileV {
            job_id: job.uuid@,
            path: path@,
            signature: None,
            delta: None,
            is_dir: false,
        }),
{
    let r = BackupFile {
        job_id: job.uuid.clone(),
        path: String::from_str(path),
        signature: None,
        delta: None,
        is_dir: false,
    };
    proof {
        assert(r.deep_view() =~= BackupFileV {
            job_id: job.uuid@,
            path: path@,
            signature: None,
            delta: None,
            is_dir: false,
        });
    }
    r
}

/// The status a finished sweep reports: done only when every file made it
/// through all of its protocol legs, otherwise incomplete.
pub fn conclude_sweep(file_ok: &Vec<bool>) -> (r: JobStatus)
    ensures
        r == (if forall|i: int| 0 <= i < file_ok@.len() ==> file_ok@[i] {
            JobStatus::Done
        } else {
            JobStatus::Incomplete
        }),
{
    let mut i: usize = 0;
    while i < file_ok.len()
        invariant
            0 <= i <= file_ok@.len(),
            forall|p: int| 0 <= p < i ==> file_ok@[p],
        decreases file_ok@.len() - i,
    {
        if !file_ok[i] {
            return JobStatus::Incomplete;
        }
        i += 1;
    }
    JobStatus::Done
}

/// The final status of a job: the sweep's own verdict when the sweep ran,
/// and an error when the sweep itself could not run.
pub fn final_job_status(sweep: &Result<JobStatus, RsyncError>) -> (r: JobStatus)
    ensures
        r == (match sweep {
            Ok(s) => *s,
            Err(_) => JobStatus::Error,
        }),
{
    match sweep {
        Ok(s) => *s,
        Err(_) => JobStatus::Error,
    }
}

/// Attaches the delta for one file: computed by the delta engine from the
/// file's current content against the signature received from the server.
/// The computation succeeds exactly when the engine accepts the signature.
pub fn compute_file_delta(file: &mut BackupFile, data: &[u8]) -> (r: Result<(), RsyncError>)
    requires
        old(file).signature is Some,
    ensures
        final(file).job_id == old(file).job_id,
        final(file).path == old(file).path,
        final(file).signature == old(file).signature,
        final(file).is_dir == old(file).is_dir,
        (r is Ok) == (crate::rsync::delta_res((old(file).signature->0)@, data@) is Some),
        match r {
            Ok(_) => final(file).delta matches Some(d) && Some(d@) == crate::rsync::delta_res(
                (old(file).signature->0)@,
                data@,
            ),
            Err(_) => final(file).delta == old(file).delta,
        },
{
    let sig = file.signature.as_ref().unwrap();
    match crate::rsync::get_delta(data, sig) {
        Ok(d) => {
            file.delta = Some(d);
            Ok(())
        },
        Err(e) => Err(e),
    }
}

/// What resolving the reference file for a job does to the registry and
/// which path it hands back. A full backup reads against the empty
/// reference. A differential backup reads against the stored file of the
/// most recent done full backup for the same client name and module type;
/// when no such backup exists, the job itself is rewritten as a full backup
/// and persisted, and the empty reference is used.
pub open spec fn diff_reference_spec(
    old_db: Db,
    new_db: Db,
    job: crate::job::BackupJobV,
    storage: Seq<char>,
    file_path: Seq<char>,
    r: Seq<char>,
) -> bool {
    let js = old_db.jobs.deep_view();
    let ms = old_db.modules.deep_view();
    let cs = old_db.clients.deep_view();
    match job.backup_type {
        crate::job::BackupType::Full => r == "/dev/null"@ && new_db == old_db,
        crate::job::BackupType::Diff => {
            if exists|k: int|
                0 <= k < js.len() && crate::db::prev_full_match(#[trigger] js[k], ms, cs, job) {
                exists|k: int|
                    {
                        &&& 0 <= k < js.len()
                        &&& crate::db::prev_full_match(#[trigger] js[k], ms, cs, job)
                        &&& forall|k2: int|
                            k < k2 < js.len() ==> !crate::db::prev_full_match(
                                #[trigger] js[k2],
                                ms,
                                cs,
                                job,
                            )
                        &&& r == local_backup_path_v(
                            storage,
                            crate::db::job_of_row(js[k], ms, cs).client.name,
                            crate::db::job_of_row(js[k], ms, cs).uuid,
                            file_path,
                        )
                        &&& new_db == old_db
                    }
            } else {
                let jb2 = crate::job::BackupJobV { backup_type: crate::job::BackupType::Full, ..job };
                let mu = crate::db::upsert_module_spec(ms, old_db.next_module_id, jb2.module);
                let cu = crate::db::upsert_client_spec(cs, old_db.next_client_id, jb2.client);
                let ju = crate::db::upsert_job_spec(js, old_db.next_job_id, jb2, mu.2, cu.2);
                &&& r == "/dev/null"@
                &&& {
                    ||| {
                        &&& new_db.modules.deep_view() == mu.0
                        &&& new_db.next_module_id == mu.1
                        &&& new_db.clients.deep_view() == cu.0
                        &&& new_db.next_client_id == cu.1
                        &&& new_db.jobs.deep_view() == ju.0
                        &&& new_db.next_job_id == ju.1
                    }
                    ||| {
                        &&& new_db.jobs == old_db.jobs
                        &&& new_db.next_job_id == old_db.next_job_id
                        &&& {
                            ||| (old_db.next_module_id == i64::MAX && !crate::db::module_name_exists(
                                ms,
                                jb2.module.name,
                            ))
                            ||| (old_db.next_client_id == i64::MAX && !crate::db::client_name_exists(
                                cs,
                                jb2.client.name,
                            ))
                            ||| (old_db.next_job_id == i64::MAX && !crate::db::job_uuid_exists(
                                js,
                                jb2.uuid,
                            ))
                        }
                    }
                }
            }
        },
    }
}

/// Resolves the reference file path the signature of which a client needs
/// for one file of a job, exactly as [`diff_reference_spec`] describes; a
/// differential job with no prior done full backup is rewritten as a full
/// backup, both in place and in the registry.
pub fn get_diff_reference_file_path(
    config: &Config,
    db: &mut Db,
    job: &mut BackupJob,
    file_path: String,
) -> (r: String)
    requires
        old(db).wf(),
    ensures
        final(db).wf(),
        diff_reference_spec(
            *old(db),
            *final(db),
            old(job).deep_view(),
            config.backup_storage_path@,
            file_path@,
            r@,
        ),
        final(job).uuid == old(job).uuid,
        final(job).client == old(job).client,
        final(job).module == old(job).module,
        final(job).status == old(job).status,
        final(job).backup_type == (match old(job).backup_type {
            crate::job::BackupType::Full => crate::job::BackupType::Full,
            crate::job::BackupType::Diff => {
                if exists|k: int|
                    0 <= k < old(db).jobs.deep_view().len() && crate::db::prev_full_match(
                        #[trigger] old(db).jobs.deep_view()[k],
                        old(db).modules.deep_view(),
                        old(db).clients.deep_view(),
                        old(job).deep_view(),
                    ) {
                    crate::job::BackupType::Diff
                } else {
                    crate::job::BackupType::Full
                }
            },
        }),
{
    let is_diff = match job.backup_type {
        crate::job::BackupType::Diff => true,
        crate::job::BackupType::Full => false,
    };
    if !is_diff {
        return dev_null_path();
    }
    match crate::db::get_previous_full_backup_job(job, db) {
        Some(full_job) => {
            let reference_file = BackupFile {
                job_id: full_job.uuid.clone(),
                path: file_path,
                signature: None,
                delta: None,
                is_dir: false,
            };
            get_local_backup_file_path(config, &full_job, &reference_file)
        },
        None => {
            job.backup_type = crate::job::BackupType::Full;
            let ghost jb2 = crate::job::BackupJobV {
                backup_type: crate::job::BackupType::Full,
                ..old(job).deep_view()
            };
            proof {
                assert(job.deep_view() =~= jb2);
            }
            let _saved = db.save_job(job);
            dev_null_path()
        },
    }
}

/// What registering a job ends in.
#[derive(Clone, Copy, Debug, PartialEq, Eq, Structural)]
pub enum RegisterOutcome {
    /// The job was persisted.
    Registered,
    /// A job under the same identifier already exists; nothing was written.
    Conflict,
    /// The registry could not store the job.
    StorageError,
}

/// Registers a job a client announced: refused as a conflict when its
/// identifier is already present, otherwise persisted with its module and
/// client snapshots.
pub fn handle_register(db: &mut Db, job: &BackupJob) -> (r: RegisterOutcome)
    requires
        old(db).wf(),
    ensures
        final(db).wf(),
        (r == RegisterOutcome::Conflict) == crate::db::job_uuid_exists(
            old(db).jobs.deep_view(),
            job.uuid@,
        ),
        r == RegisterOutcome::Conflict ==> *final(db) == *old(db),
        r == RegisterOutcome::Registered ==> {
            let mu = crate::db::upsert_module_spec(
                old(db).modules.deep_view(),
                old(db).next_module_id,
                job.module.deep_view(),
            );
            let cu = crate::db::upsert_client_spec(
                old(db).clients.deep_view(),
                old(db).next_client_id,
                job.client.deep_view(),
            );
            let ju = crate::db::upsert_job_spec(
                old(db).jobs.deep_view(),
                old(db).next_job_id,
                job.deep_view(),
                mu.2,
                cu.2,
            );
            &&& final(db).modules.deep_view() == mu.0
            &&& final(db).next_module_id == mu.1
            &&& final(db).clients.deep_view() == cu.0
            &&& final(db).next_client_id == cu.1
            &&& final(db).jobs.deep_view() == ju.0
            &&& final(db).next_job_id == ju.1
        },
        r == RegisterOutcome::StorageError ==> {
            &&& final(db).jobs == old(db).jobs
            &&& {
                ||| (old(db).next_module_id == i64::MAX && !crate::db::module_name_exists(
                    old(db).modules.deep_view(),
                    job.module.name@,
                ))
                ||| (old(db).next_client_id == i64::MAX && !crate::db::client_name_exists(
                    old(db).clients.deep_view(),
                    job.client.name@,
                ))
                ||| (old(db).next_job_id == i64::MAX && !crate::db::job_uuid_exists(
                    old(db).jobs.deep_view(),
                    job.uuid@,
                ))
            }
        },
{
    let existing = db.find_by_uuid(job.uuid.as_str());
    match existing {
        Some(_) => RegisterOutcome::Conflict,
        None => {
            match db.save_job(job) {
                Ok(_) => RegisterOutcome::Registered,
                Err(_) => RegisterOutcome::StorageError,
            }
        },
    }
}

/// What a status update request ends in.
#[derive(Clone, Copy, Debug, PartialEq, Eq, Structural)]
pub enum StatusUpdateOutcome {
    /// The identifier text is not a well-formed identifier.
    BadRequest,
    /// No job is persisted under this identifier.
    NotFound,
    /// The job's status was replaced and the job persisted again.
    Updated,
}

/// Applies a status a client reported for its job: refused when the
/// identifier text is malformed, not found when no job carries it, otherwise
/// the persisted job takes the new status.
pub fn handle_status_update(db: &mut Db, id: &str, status: JobStatus) -> (r: StatusUpdateOutcome)
    requires
        old(db).wf(),
    ensures
        final(db).wf(),
        (r == StatusUpdateOutcome::BadRequest) == !crate::job::uuid_parse_ok(id@),
        r == StatusUpdateOutcome::BadRequest ==> *final(db) == *old(db),
        (r == StatusUpdateOutcome::NotFound) == (crate::job::uuid_parse_ok(id@)
            && !crate::db::job_uuid_exists(old(db).jobs.deep_view(), id@)),
        r == StatusUpdateOutcome::NotFound ==> *final(db) == *old(db),
        r == StatusUpdateOutcome::Updated ==> exists|k: int|
            #![trigger old(db).jobs.deep_view()[k]]
            {
                let js = old(db).jobs.deep_view();
                let jb = crate::job::BackupJobV {
                    status: status,
                    ..crate::db::job_of_row(
                        js[k],
                        old(db).modules.deep_view(),
                        old(db).clients.deep_view(),
                    )
                };
                let mu = crate::db::upsert_module_spec(
                    old(db).modules.deep_view(),
                    old(db).next_module_id,
                    jb.module,
                );
                let cu = crate::db::upsert_client_spec(
                    old(db).clients.deep_view(),
                    old(db).next_client_id,
                    jb.client,
                );
                let ju = crate::db::upsert_job_spec(
                    old(db).jobs.deep_view(),
                    old(db).next_job_id,
                    jb,
                    mu.2,
                    cu.2,
                );
                &&& 0 <= k < js.len()
                &&& js[k].uuid == id@
                &&& final(db).modules.deep_view() == mu.0
                &&& final(db).next_module_id == mu.1
                &&& final(db).clients.deep_view() == cu.0
                &&& final(db).next_client_id == cu.1
                &&& final(db).jobs.deep_view() == ju.0
                &&& final(db).next_job_id == ju.1
            },
{
    if !crate::job::parse_uuid_str(id) {
        return StatusUpdateOutcome::BadRequest;
    }
    match db.find_by_uuid(id) {
        None => StatusUpdateOutcome::NotFound,
        Some(mut job) => {
            job.set_status(status);
            let _saved = db.save_job(&job);
            StatusUpdateOutcome::Updated
        },
    }
}

/// What a signature request ends in.
#[derive(Debug)]
pub enum SignatureOutcome {
    /// The identifier text is not a well-formed identifier.
    BadRequest,
    /// No job is persisted under this identifier.
    NotFound,
    /// The path of the reference file whose signature answers the request.
    Reference(String),
}

/// Answers a signature request for one file of a job: the caller reads the
/// returned reference path and computes its signature. Resolving the
/// reference may rewrite a differential job as a full one, as
/// [`diff_reference_spec`] describes.
pub fn handle_signature_request(db: &mut Db, cfg: &Config, id: &str, file_path: String) -> (r:
    SignatureOutcome)
    requires
        old(db).wf(),
    ensures
        final(db).wf(),
        (r is BadRequest) == !crate::job::uuid_parse_ok(id@),
        r is BadRequest ==> *final(db) == *old(db),
        (r is NotFound) == (crate::job::uuid_parse_ok(id@) && !crate::db::job_uuid_exists(
            old(db).jobs.deep_view(),
            id@,
        )),
        r is NotFound ==> *final(db) == *old(db),
        r matches SignatureOutcome::Reference(p) ==> exists|k: int|
            #![trigger old(db).jobs.deep_view()[k]]
            {
                let js = old(db).jobs.deep_view();
                &&& 0 <= k < js.len()
                &&& js[k].uuid == id@
                &&& diff_reference_spec(
                    *old(db),
                    *final(db),
                    crate::db::job_of_row(
                        js[k],
                        old(db).modules.deep_view(),
                        old(db).clients.deep_view(),
                    ),
                    cfg.backup_storage_path@,
                    file_path@,
                    p@,
                )
            },
{
    if !crate::job::parse_uuid_str(id) {
        return SignatureOutcome::BadRequest;
    }
    match db.find_by_uuid(id) {
        None => SignatureOutcome::NotFound,
        Some(mut job) => {
            let path = get_diff_reference_file_path(cfg, db, &mut job, file_path);
            SignatureOutcome::Reference(path)
        },
    }
}

/// What a delta upload ends in.
#[derive(Debug)]
pub enum DeltaOutcome {
    /// The identifier text is not a well-formed identifier.
    BadRequest,
    /// No job is persisted under this identifier.
    NotFound,
    /// The storage path the rebuilt file belongs at.
    Target(String),
}

/// Answers a delta upload for one file of a job: the caller rebuilds the
/// file with [`rebuild_from_delta`] and writes it at the returned storage
/// path.
pub fn handle_delta_request(db: &Db, cfg: &Config, id: &str, backup_file: &BackupFile) -> (r:
    DeltaOutcome)
    requires
        db.wf(),
    ensures
        (r is BadRequest) == !crate::job::uuid_parse_ok(id@),
        (r is NotFound) == (crate::job::uuid_parse_ok(id@) && !crate::db::job_uuid_exists(
            db.jobs.deep_view(),
            id@,
        )),
        r matches DeltaOutcome::Target(p) ==> exists|k: int|
            #![trigger db.jobs.deep_view()[k]]
            {
                let js = db.jobs.deep_view();
                let jb = crate::db::job_of_row(
                    js[k],
                    db.modules.deep_view(),
                    db.clients.deep_view(),
                );
                &&& 0 <= k < js.len()
                &&& js[k].uuid == id@
                &&& p@ == local_backup_path_v(
                    cfg.backup_storage_path@,
                    jb.client.name,
                    jb.uuid,
                    backup_file.path@,
                )
            },
{
    if !crate::job::parse_uuid_str(id) {
        return DeltaOutcome::BadRequest;
    }
    match db.find_by_uuid(id) {
        None => DeltaOutcome::NotFound,
        Some(job) => DeltaOutcome::Target(get_local_backup_file_path(cfg, &job, backup_file)),
    }
}

/// Rebuilds a file's content from a delta: the base is the already-present
/// content when the target exists (a resumed transfer) and empty otherwise.
/// The engine accepts or refuses the pair as a function of base and delta,
/// and when the delta led from the base's signature to some content, the
/// result is that content byte for byte.
pub fn rebuild_from_delta(existing: &Option<Vec<u8>>, delta: &Delta) -> (r: Result<
    Vec<u8>,
    RsyncError,
>)
    ensures
        existing matches Some(b) ==> {
            &&& (r is Ok) == crate::rsync::patch_ok(b@, delta@)
            &&& (r matches Ok(out) ==> forall|new: Seq<u8>|
                crate::rsync::delta_res(crate::rsync::sig_of(b@), new) == Some(delta@)
                    ==> out@ == new)
        },
        existing is None ==> {
            &&& (r is Ok) == crate::rsync::patch_ok(Seq::empty(), delta@)
            &&& (r matches Ok(out) ==> forall|new: Seq<u8>|
                crate::rsync::delta_res(crate::rsync::sig_of(Seq::empty()), new) == Some(delta@)
                    ==> out@ == new)
        },
{
    match existing {
        Some(base) => crate::rsync::apply_delta(base.as_slice(), delta),
        None => {
            let empty: Vec<u8> = Vec::new();
            crate::rsync::apply_delta(empty.as_slice(), delta)
        },
    }
}

} // verus!
