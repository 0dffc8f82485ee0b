use relique::config::{BackupModule, Client};
use relique::db::{get_previous_full_backup_job, Db, DbError};
use relique::job::{BackupJob, BackupType, JobStatus};

fn module(name: &str, module_type: &str) -> BackupModule {
    BackupModule {
        module_type: String::from(module_type),
        name: String::from(name),
        backup_type: None,
        schedules: None,
        backup_paths: None,
        pre_backup_script: None,
        post_backup_script: None,
        pre_restore_script: None,
        post_restore_script: None,
    }
}

fn client(name: &str) -> Client {
    Client {
        name: String::from(name),
        address: String::from("10.0.0.1"),
        port: Some(8434),
        modules: vec![],
        schedules: vec![],
        config_version: None,
        server_address: String::from("srv"),
        server_port: Some(8433),
    }
}

fn job(uuid: &str, client_name: &str, module_type: &str, status: JobStatus, kind: BackupType) -> BackupJob {
    // One module record per module type: records are upserted by name, so a
    // shared name across types would overwrite the persisted type.
    let module_name = format!("mod-{}", module_type);
    BackupJob {
        uuid: String::from(uuid),
        client: client(client_name),
        module: module(&module_name, module_type),
        status,
        backup_type: kind,
    }
}

#[test]
fn backup_type_codec_is_exact() {
    assert_eq!(BackupType::Full.to_i64(), 0);
    assert_eq!(BackupType::Diff.to_i64(), 1);
    assert_eq!(BackupType::from_i64(0).unwrap(), BackupType::Full);
    assert_eq!(BackupType::from_i64(1).unwrap(), BackupType::Diff);
    assert_eq!(BackupType::from_i64(2).unwrap_err(), 2);
    assert_eq!(BackupType::from_i64(-1).unwrap_err(), -1);
}

#[test]
fn job_status_codec_is_exact() {
    assert_eq!(JobStatus::Pending.to_i64(), 0);
    assert_eq!(JobStatus::Active.to_i64(), 1);
    assert_eq!(JobStatus::Done.to_i64(), 2);
    assert_eq!(JobStatus::Incomplete.to_i64(), 3);
    assert_eq!(JobStatus::Error.to_i64(), 4);
    for v in 0..5 {
        assert_eq!(JobStatus::from_i64(v).unwrap().to_i64(), v);
    }
    assert_eq!(JobStatus::from_i64(5).unwrap_err(), 5);
    assert_eq!(JobStatus::from_i64(-3).unwrap_err(), -3);
}

#[test]
fn saving_a_client_twice_keeps_its_identifier() {
    let mut db = Db::new();
    let mut c = client("alpha");
    let id1 = db.save_client(&c).unwrap();
    c.address = String::from("10.9.9.9");
    let id2 = db.save_client(&c).unwrap();
    assert_eq!(id1, id2);
    assert_eq!(db.clients.len(), 1);
    assert_eq!(db.clients[0].address, "10.9.9.9");
    let other = db.save_client(&client("beta")).unwrap();
    assert_ne!(other, id1);
    assert_eq!(db.clients.len(), 2);
}

#[test]
fn job_save_cascades_and_reads_back() {
    let mut db = Db::new();
    let j = job("uuid-1", "alpha", "generic", JobStatus::Pending, BackupType::Full);
    j.save(&mut db).unwrap();
    assert_eq!(db.clients.len(), 1);
    assert_eq!(db.modules.len(), 1);
    assert_eq!(db.jobs.len(), 1);
    let back = BackupJob::find_by_uuid("uuid-1", &db).unwrap();
    assert_eq!(back.uuid, "uuid-1");
    assert_eq!(back.client.name, "alpha");
    assert_eq!(back.module.module_type, "generic");
    assert_eq!(back.module.name, "mod-generic");
    assert_eq!(back.status, JobStatus::Pending);
    assert_eq!(back.backup_type, BackupType::Full);
    assert!(BackupJob::find_by_uuid("uuid-2", &db).is_none());
}

#[test]
fn saving_a_job_again_updates_its_row() {
    let mut db = Db::new();
    let mut j = job("uuid-1", "alpha", "generic", JobStatus::Pending, BackupType::Full);
    let id1 = j.save(&mut db).unwrap();
    j.set_status(JobStatus::Done);
    let id2 = j.save(&mut db).unwrap();
    assert_eq!(id1, id2);
    assert_eq!(db.jobs.len(), 1);
    let back = BackupJob::find_by_uuid("uuid-1", &db).unwrap();
    assert_eq!(back.status, JobStatus::Done);
}

#[test]
fn active_jobs_are_exactly_the_active_ones() {
    let mut db = Db::new();
    job("u-1", "alpha", "generic", JobStatus::Pending, BackupType::Full)
        .save(&mut db)
        .unwrap();
    job("u-2", "alpha", "generic", JobStatus::Active, BackupType::Full)
        .save(&mut db)
        .unwrap();
    job("u-3", "beta", "generic", JobStatus::Done, BackupType::Diff)
        .save(&mut db)
        .unwrap();
    job("u-4", "beta", "generic", JobStatus::Active, BackupType::Diff)
        .save(&mut db)
        .unwrap();
    let active = BackupJob::get_active_jobs(&db);
    let uuids: Vec<String> = active.iter().map(|j| j.uuid.clone()).collect();
    assert_eq!(uuids, vec![String::from("u-2"), String::from("u-4")]);
    for j in &active {
        assert_eq!(j.status, JobStatus::Active);
    }
}

#[test]
fn previous_full_backup_takes_the_most_recent_match() {
    let mut db = Db::new();
    job("full-1", "alpha", "generic", JobStatus::Done, BackupType::Full)
        .save(&mut db)
        .unwrap();
    job("full-2", "alpha", "generic", JobStatus::Done, BackupType::Full)
        .save(&mut db)
        .unwrap();
    // Not eligible: wrong status, wrong kind, wrong client, wrong type.
    job("active", "alpha", "generic", JobStatus::Active, BackupType::Full)
        .save(&mut db)
        .unwrap();
    job("diff", "alpha", "generic", JobStatus::Done, BackupType::Diff)
        .save(&mut db)
        .unwrap();
    job("other-client", "beta", "generic", JobStatus::Done, BackupType::Full)
        .save(&mut db)
        .unwrap();
    job("other-type", "alpha", "pgsql", JobStatus::Done, BackupType::Full)
        .save(&mut db)
        .unwrap();

    let target = job("new", "alpha", "generic", JobStatus::Pending, BackupType::Diff);
    let found = get_previous_full_backup_job(&target, &db).unwrap();
    assert_eq!(found.uuid, "full-2");
}

#[test]
fn previous_full_backup_absent_when_nothing_matches() {
    let mut db = Db::new();
    job("diff-only", "alpha", "generic", JobStatus::Done, BackupType::Diff)
        .save(&mut db)
        .unwrap();
    let target = job("new", "alpha", "generic", JobStatus::Pending, BackupType::Diff);
    assert!(get_previous_full_backup_job(&target, &db).is_none());
}

#[test]
fn row_identifiers_resolve_by_name_and_uuid() {
    let mut db = Db::new();
    let j = job("uuid-1", "alpha", "generic", JobStatus::Pending, BackupType::Full);
    j.save(&mut db).unwrap();
    let cid = Client::get_db_id(&String::from("alpha"), &db).unwrap();
    let mid = BackupModule::get_db_id(&String::from("mod-generic"), &db).unwrap();
    let jid = BackupJob::get_db_id("uuid-1", &db).unwrap();
    assert!(cid >= 1 && mid >= 1 && jid >= 1);
    assert_eq!(
        Client::get_db_id(&String::from("nobody"), &db).unwrap_err(),
        DbError::NotFound
    );
    assert_eq!(
        BackupModule::get_db_id(&String::from("nothing"), &db).unwrap_err(),
        DbError::NotFound
    );
    assert_eq!(BackupJob::get_db_id("uuid-9", &db).unwrap_err(), DbError::NotFound);

    let c = Client::find_by_id(cid, &db).unwrap();
    assert_eq!(c.name, "alpha");
    assert!(c.modules.is_empty());
    let m = BackupModule::find_by_id(mid, &db).unwrap();
    assert_eq!(m.name, "mod-generic");
    assert_eq!(m.module_type, "generic");
    assert_eq!(Client::find_by_id(99, &db).unwrap_err(), DbError::NotFound);
    assert_eq!(BackupModule::find_by_id(99, &db).unwrap_err(), DbError::NotFound);
}

#[test]
fn backup_type_wire_names_decode_exactly() {
    assert_eq!(BackupType::from_name("full"), Some(BackupType::Full));
    assert_eq!(BackupType::from_name("diff"), Some(BackupType::Diff));
    assert_eq!(BackupType::from_name("Full"), None);
    assert_eq!(BackupType::from_name(""), None);
}

#[test]
fn exhausted_identifier_space_refuses_writes() {
    let mut db = Db::new();
    db.next_client_id = i64::MAX;
    assert_eq!(
        db.save_client(&client("alpha")).unwrap_err(),
        DbError::IdExhausted
    );
    // An existing row can still be updated: its identifier is already assigned.
    let mut db2 = Db::new();
    db2.save_client(&client("alpha")).unwrap();
    db2.next_client_id = i64::MAX;
    assert!(db2.save_client(&client("alpha")).is_ok());
}
