//! Backup jobs: their status and kind enums, the single integer codec used
//! at the persistence boundary, and the job record itself.

use vstd::prelude::*;

use crate::config::{BackupModule, BackupModuleV, Client, ClientV};

verus! {

/// Whether a backup transfers the whole file (reference is empty) or only a
/// delta against the latest done full backup for the same client and module
/// type.
#[derive(Clone, Copy, Debug, PartialEq, Eq, Structural)]
pub enum BackupType {
    Full,
    Diff,
}

/// Lifecycle state of a backup job.
#[derive(Clone, Copy, Debug, PartialEq, Eq, Structural)]
pub enum JobStatus {
    Pending,
    Active,
    Done,
    Incomplete,
    Error,
}

/// Integer code stored in the jobs table for a backup type.
pub open spec fn backup_type_code(t: BackupType) -> i64 {
    match t {
        BackupType::Full => 0,
        BackupType::Diff => 1,
    }
}

/// Integer code stored in the jobs table for a job status.
pub open spec fn job_status_code(s: JobStatus) -> i64 {
    match s {
        JobStatus::Pending => 0,
        JobStatus::Active => 1,
        JobStatus::Done => 2,
        JobStatus::Incomplete => 3,
        JobStatus::Error => 4,
    }
}

impl BackupType {
    /// The code this backup type takes in the persisted jobs table.
    pub fn to_i64(self) -> (r: i64)
        ensures
            r == backup_type_code(self),
    {
        match self {
            BackupType::Full => 0,
            BackupType::Diff => 1,
        }
    }

    /// Decodes a persisted integer; any value outside the declared mapping is
    /// a decoding error carrying the offending value.
    pub fn from_i64(value: i64) -> (r: Result<BackupType, i64>)
        ensures
            match r {
                Ok(t) => backup_type_code(t) == value,
                Err(v) => v == value && !(0 <= value <= 1),
            },
    {
        match value {
            0 => Ok(BackupType::Full),
            1 => Ok(BackupType::Diff),
            _ => Err(value),
        }
    }
}

impl BackupType {
    /// Decodes the lowercase wire name of a backup type; any other text is
    /// refused.
    pub fn from_name(s: &str) -> (r: Option<BackupType>)
        ensures
            r == (if s@ == "full"@ {
                Some(BackupType::Full)
            } else if s@ == "diff"@ {
                Some(BackupType::Diff)
            } else {
                None::<BackupType>
            }),
    {
        let t = String::from_str(s);
        if t == String::from_str("full") {
            Some(BackupType::Full)
        } else if t == String::from_str("diff") {
            Some(BackupType::Diff)
        } else {
            None
        }
    }
}

impl JobStatus {
    /// The code this status takes in the persisted jobs table.
    pub fn to_i64(self) -> (r: i64)
        ensures
            r == job_status_code(self),
    {
        match self {
            JobStatus::Pending => 0,
            JobStatus::Active => 1,
            JobStatus::Done => 2,
            JobStatus::Incomplete => 3,
            JobStatus::Error => 4,
        }
    }

    /// Decodes a persisted integer; any value outside the declared mapping is
    /// a decoding error carrying the offending value.
    pub fn from_i64(value: i64) -> (r: Result<JobStatus, i64>)
        ensures
            match r {
                Ok(s) => job_status_code(s) == value,
                Err(v) => v == value && !(0 <= value <= 4),
            },
    {
        match value {
            0 => Ok(JobStatus::Pending),
            1 => Ok(JobStatus::Active),
            2 => Ok(JobStatus::Done),
            3 => Ok(JobStatus::Incomplete),
            4 => Ok(JobStatus::Error),
            _ => Err(value),
        }
    }
}

/// A name for what uuid's `Uuid::parse_str` accepts: whether a text is a
/// well-formed identifier in one of the forms that parser knows.
pub uninterp spec fn uuid_parse_ok(s: Seq<char>) -> bool;

/// Relies on uuid's `Uuid::parse_str`: whether the text names a well-formed
/// identifier; the answer depends on the text alone.
#[verifier::external_body]
pub fn parse_uuid_str(s: &str) -> (r: bool)
    ensures
        r == uuid_parse_ok(s@),
{
    uuid::Uuid::parse_str(s).is_ok()
}

/// One backup job: a snapshot of the client and module it runs for, its
/// lifecycle status, and whether it transfers full files or deltas.
#[derive(Debug)]
pub struct BackupJob {
    pub uuid: String,
    pub client: Client,
    pub module: BackupModule,
    pub status: JobStatus,
    pub backup_type: BackupType,
}

/// The mathematical content of a [`BackupJob`].
#[verifier::ext_equal]
pub struct BackupJobV {
    pub uuid: Seq<char>,
    pub client: ClientV,
    pub module: BackupModuleV,
    pub status: JobStatus,
    pub backup_type: BackupType,
}

impl DeepView for BackupJob {
    type V = BackupJobV;

    open spec fn deep_view(&self) -> BackupJobV {
        BackupJobV {
            uuid: self.uuid@,
            client: self.client.deep_view(),
            module: self.module.deep_view(),
            status: self.status,
            backup_type: self.backup_type,
        }
    }
}

impl BackupJob {
    /// A new pending job for the given client and module, under a freshly
    /// generated identifier; its kind follows the module's declared backup
    /// type and falls back to a full backup.
    pub fn new(client: Client, module: BackupModule) -> (r: BackupJob)
        ensures
            r.uuid@.len() == 36,
            r.client == client,
            r.module == module,
            r.status == JobStatus::Pending,
            r.backup_type == (match module.backup_type {
                Some(t) => t,
                None => BackupType::Full,
            }),
    {
        let backup_type = match module.backup_type {
            Some(t) => t,
            None => BackupType::Full,
        };
        BackupJob { uuid: crate::config::generate_uuid(), client, module, status: JobStatus::Pending, backup_type }
    }

    /// Moves the job to the given lifecycle status, leaving everything else
    /// as it stands.
    pub fn set_status(&mut self, status: JobStatus)
        ensures
            final(self).status == status,
            final(self).uuid == old(self).uuid,
            final(self).client == old(self).client,
            final(self).module == old(self).module,
            final(self).backup_type == old(self).backup_type,
    {
        self.status = status;
    }

    /// A copy whose content equals this job's.
    pub fn duplicate(&self) -> (r: BackupJob)
        ensures
            r.deep_view() == self.deep_view(),
    {
        let r = BackupJob {
            uuid: self.uuid.clone(),
            client: self.client.duplicate(),
            module: self.module.duplicate(),
            status: self.status,
            backup_type: self.backup_type,
        };
        proof {
            assert(r.deep_view() =~= self.deep_view());
        }
        r
    }
}

} // verus!
