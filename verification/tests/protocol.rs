use relique::backup::{
    conclude_sweep, final_job_status, get_local_backup_file_path, handle_delta_request,
    handle_register, handle_signature_request, handle_status_update, prepare_backup_file,
    rebuild_from_delta, BackupFile, DeltaOutcome, RegisterOutcome, SignatureOutcome,
    StatusUpdateOutcome,
};
use relique::config::{BackupModule, Client, Config};
use relique::db::Db;
use relique::job::{BackupJob, BackupType, JobStatus};
use relique::rsync::{apply_delta, get_delta, get_signature, signatures_match, RsyncError};

fn module_with_paths(name: &str, paths: Vec<String>) -> BackupModule {
    BackupModule {
        module_type: String::from("generic"),
        name: String::from(name),
        backup_type: None,
        schedules: None,
        backup_paths: Some(paths),
        pre_backup_script: None,
        post_backup_script: None,
        pre_restore_script: None,
        post_restore_script: None,
    }
}

fn client(name: &str) -> Client {
    Client {
        name: String::from(name),
        address: String::from("10.0.0.1"),
        port: Some(8434),
        modules: vec![],
        schedules: vec![],
        config_version: None,
        server_address: String::from("srv"),
        server_port: Some(8433),
    }
}

fn job_of(uuid: &str, client_name: &str, kind: BackupType) -> BackupJob {
    BackupJob {
        uuid: String::from(uuid),
        client: client(client_name),
        module: module_with_paths("files", vec![String::from("/tmp/one")]),
        status: JobStatus::Pending,
        backup_type: kind,
    }
}

#[test]
fn delta_round_trip_restores_the_new_content() {
    let base = b"this is the base content of the file".to_vec();
    let new = b"this is the CHANGED content of the file, with more bytes".to_vec();
    let sig = get_signature(&base).unwrap();
    let delta = get_delta(&new, &sig).unwrap();
    let applied = apply_delta(&base, &delta).unwrap();
    assert_eq!(applied, new);
}

#[test]
fn delta_against_empty_base_carries_the_whole_file() {
    let base: Vec<u8> = Vec::new();
    let new = b"hello\n".to_vec();
    let sig = get_signature(&base).unwrap();
    let delta = get_delta(&new, &sig).unwrap();
    let applied = apply_delta(&base, &delta).unwrap();
    assert_eq!(applied, new);
}

#[test]
fn identical_content_gives_matching_signatures() {
    let a = get_signature(&b"same bytes".to_vec()).unwrap();
    let b = get_signature(&b"same bytes".to_vec()).unwrap();
    let c = get_signature(&b"other bytes".to_vec()).unwrap();
    assert!(signatures_match(&a, &b).unwrap());
    assert!(!signatures_match(&a, &c).unwrap());
    let mut truncated = a.clone();
    truncated.pop();
    assert!(!signatures_match(&a, &truncated).unwrap());
}

#[test]
fn storage_path_is_laid_out_verbatim() {
    let cfg = Config::default();
    let j = job_of("uuid-1", "alpha", BackupType::Full);
    let f = prepare_backup_file(&j, "/tmp/one/a");
    assert_eq!(f.job_id, "uuid-1");
    assert_eq!(f.path, "/tmp/one/a");
    assert!(f.signature.is_none() && f.delta.is_none() && !f.is_dir);
    let p = get_local_backup_file_path(&cfg, &j, &f);
    assert_eq!(p, "/opt/relique//alpha/uuid-1//tmp/one/a");
}

#[test]
fn register_conflicts_on_a_known_identifier() {
    let mut db = Db::new();
    let j = job_of("uuid-1", "alpha", BackupType::Full);
    assert_eq!(handle_register(&mut db, &j), RegisterOutcome::Registered);
    assert_eq!(handle_register(&mut db, &j), RegisterOutcome::Conflict);
    assert_eq!(db.jobs.len(), 1);
}

#[test]
fn status_update_validates_then_finds_then_writes() {
    let mut db = Db::new();
    let uuid = "1f0e4ac4-b9a6-48cc-b143-65d3b498a89a";
    let j = job_of(uuid, "alpha", BackupType::Full);
    handle_register(&mut db, &j);
    assert_eq!(
        handle_status_update(&mut db, "not a uuid", JobStatus::Done),
        StatusUpdateOutcome::BadRequest
    );
    assert_eq!(
        handle_status_update(
            &mut db,
            "9e9e9e9e-9e9e-9e9e-9e9e-9e9e9e9e9e9e",
            JobStatus::Done
        ),
        StatusUpdateOutcome::NotFound
    );
    assert_eq!(
        handle_status_update(&mut db, uuid, JobStatus::Done),
        StatusUpdateOutcome::Updated
    );
    let back = db.find_by_uuid(uuid).unwrap();
    assert_eq!(back.status, JobStatus::Done);
}

#[test]
fn full_backup_reads_against_the_empty_reference() {
    let mut db = Db::new();
    let cfg = Config::default();
    let uuid = "1f0e4ac4-b9a6-48cc-b143-65d3b498a89a";
    let j = job_of(uuid, "alpha", BackupType::Full);
    handle_register(&mut db, &j);
    match handle_signature_request(&mut db, &cfg, uuid, String::from("/tmp/one/a")) {
        SignatureOutcome::Reference(p) => assert_eq!(p, "/dev/null"),
        _ => panic!("expected a reference path"),
    }
}

#[test]
fn diff_without_prior_full_is_persisted_as_full() {
    let mut db = Db::new();
    let cfg = Config::default();
    let uuid = "1f0e4ac4-b9a6-48cc-b143-65d3b498a89a";
    let j = job_of(uuid, "alpha", BackupType::Diff);
    handle_register(&mut db, &j);
    match handle_signature_request(&mut db, &cfg, uuid, String::from("/tmp/one/a")) {
        SignatureOutcome::Reference(p) => assert_eq!(p, "/dev/null"),
        _ => panic!("expected a reference path"),
    }
    // The job was rewritten in the registry: the next run can reference it.
    let back = db.find_by_uuid(uuid).unwrap();
    assert_eq!(back.backup_type, BackupType::Full);
}

#[test]
fn diff_with_a_prior_full_references_its_stored_file() {
    let mut db = Db::new();
    let cfg = Config::default();
    let full_uuid = "aaaaaaaa-0000-4000-8000-000000000001";
    let mut full = job_of(full_uuid, "alpha", BackupType::Full);
    full.status = JobStatus::Done;
    handle_register(&mut db, &full);
    let diff_uuid = "bbbbbbbb-0000-4000-8000-000000000002";
    let diff = job_of(diff_uuid, "alpha", BackupType::Diff);
    handle_register(&mut db, &diff);
    match handle_signature_request(&mut db, &cfg, diff_uuid, String::from("/tmp/one/a")) {
        SignatureOutcome::Reference(p) => {
            assert_eq!(
                p,
                format!("/opt/relique//alpha/{}//tmp/one/a", full_uuid)
            );
        }
        _ => panic!("expected a reference path"),
    }
    // The diff job keeps its kind: a reference existed.
    let back = db.find_by_uuid(diff_uuid).unwrap();
    assert_eq!(back.backup_type, BackupType::Diff);
}

#[test]
fn delta_upload_names_the_storage_target() {
    let mut db = Db::new();
    let cfg = Config::default();
    let uuid = "1f0e4ac4-b9a6-48cc-b143-65d3b498a89a";
    let j = job_of(uuid, "alpha", BackupType::Full);
    handle_register(&mut db, &j);
    let f = prepare_backup_file(&j, "/tmp/one/a");
    assert!(matches!(
        handle_delta_request(&db, &cfg, "garbage", &f),
        DeltaOutcome::BadRequest
    ));
    assert!(matches!(
        handle_delta_request(&db, &cfg, "9e9e9e9e-9e9e-9e9e-9e9e-9e9e9e9e9e9e", &f),
        DeltaOutcome::NotFound
    ));
    match handle_delta_request(&db, &cfg, uuid, &f) {
        DeltaOutcome::Target(p) => {
            assert_eq!(p, format!("/opt/relique//alpha/{}//tmp/one/a", uuid));
        }
        _ => panic!("expected a target path"),
    }
}

#[test]
fn full_backup_of_one_small_file_round_trips() {
    // The client walks a single file holding `hello\n` under a full backup;
    // the server rebuilds it byte for byte and the job ends done.
    let mut db = Db::new();
    let cfg = Config::default();
    let uuid = "1f0e4ac4-b9a6-48cc-b143-65d3b498a89a";
    let j = job_of(uuid, "alpha", BackupType::Full);
    assert_eq!(handle_register(&mut db, &j), RegisterOutcome::Registered);

    let file_content = b"hello\n".to_vec();
    // Server leg one: the reference for a full backup is empty.
    let reference = match handle_signature_request(&mut db, &cfg, uuid, String::from("/tmp/one/a"))
    {
        SignatureOutcome::Reference(p) => p,
        _ => panic!("expected a reference path"),
    };
    assert_eq!(reference, "/dev/null");
    let reference_bytes: Vec<u8> = Vec::new();
    let sig = get_signature(&reference_bytes).unwrap();
    // Client leg two: delta of the current content against that signature.
    let delta = get_delta(&file_content, &sig).unwrap();
    // Server leg three: rebuild at the storage target.
    let f = prepare_backup_file(&j, "/tmp/one/a");
    let target = match handle_delta_request(&db, &cfg, uuid, &f) {
        DeltaOutcome::Target(p) => p,
        _ => panic!("expected a target path"),
    };
    assert_eq!(target, format!("/opt/relique//alpha/{}//tmp/one/a", uuid));
    let rebuilt = rebuild_from_delta(&None, &delta).unwrap();
    assert_eq!(rebuilt, file_content);
    // Final leg: the client reports the sweep's verdict.
    let sweep: Result<JobStatus, RsyncError> = Ok(conclude_sweep(&vec![true]));
    assert_eq!(
        handle_status_update(&mut db, uuid, final_job_status(&sweep)),
        StatusUpdateOutcome::Updated
    );
    assert_eq!(db.find_by_uuid(uuid).unwrap().status, JobStatus::Done);
}

#[test]
fn sweep_accounting_matches_the_protocol() {
    assert_eq!(conclude_sweep(&vec![]), JobStatus::Done);
    assert_eq!(conclude_sweep(&vec![true, true]), JobStatus::Done);
    assert_eq!(conclude_sweep(&vec![true, false, true]), JobStatus::Incomplete);
    assert_eq!(final_job_status(&Ok(JobStatus::Incomplete)), JobStatus::Incomplete);
    assert_eq!(final_job_status(&Err(RsyncError::Engine)), JobStatus::Error);
}

#[test]
fn resumed_transfer_rebuilds_against_existing_bytes() {
    let existing = b"partial earlier content".to_vec();
    let new = b"the final content after resumption".to_vec();
    let sig = get_signature(&existing).unwrap();
    let delta = get_delta(&new, &sig).unwrap();
    let rebuilt = rebuild_from_delta(&Some(existing), &delta).unwrap();
    assert_eq!(rebuilt, new);
}

#[test]
fn file_delta_attaches_to_the_wire_record() {
    let base = b"base".to_vec();
    let sig = get_signature(&base).unwrap();
    let mut f = BackupFile {
        job_id: String::from("uuid-1"),
        path: String::from("/tmp/one/a"),
        signature: Some(sig),
        delta: None,
        is_dir: false,
    };
    let data = b"new data".to_vec();
    relique::backup::compute_file_delta(&mut f, &data).unwrap();
    let delta = f.delta.clone().unwrap();
    let rebuilt = rebuild_from_delta(&Some(base), &delta).unwrap();
    assert_eq!(rebuilt, data);
}

#[test]
fn garbage_signatures_are_refused_by_the_engine() {
    let data = b"some content".to_vec();
    let bogus_signature = vec![1u8, 2, 3];
    assert_eq!(
        get_delta(&data, &bogus_signature).unwrap_err(),
        RsyncError::Engine
    );
}

#[test]
fn delta_attachment_fails_cleanly_on_a_bad_signature() {
    let mut f = BackupFile {
        job_id: String::from("uuid-1"),
        path: String::from("/tmp/one/a"),
        signature: Some(vec![1u8, 2, 3]),
        delta: None,
        is_dir: false,
    };
    assert!(relique::backup::compute_file_delta(&mut f, &b"data".to_vec()).is_err());
    assert!(f.delta.is_none());
}

#[test]
fn rebuilding_from_a_garbage_delta_is_refused() {
    let garbage = vec![9u8, 9, 9];
    assert!(rebuild_from_delta(&None, &garbage).is_err());
    assert!(rebuild_from_delta(&Some(b"base".to_vec()), &garbage).is_err());
}
