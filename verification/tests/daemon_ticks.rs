use relique::config::{BackupModule, Client, Config};
use relique::daemon::{
    create_backup_jobs, default_signals, get_active_schedules, has_active_schedule,
    needs_config_push, should_stop, ClientDaemon, ClientTick, ReliqueApp, ServerDaemon,
    ServerTick, Signal, Stopping,
};
use relique::db::Db;
use relique::job::{BackupJob, BackupType, JobStatus};
use relique::schedule::{Bounds, LocalTime, Schedule};

fn schedule_monday(name: &str, start: u32, stop: u32) -> Schedule {
    Schedule {
        name: String::from(name),
        monday: Some(Bounds(vec![(start, stop)])),
        tuesday: None,
        wednesday: None,
        thursday: None,
        friday: None,
        saturday: None,
        sunday: None,
    }
}

fn module_on(name: &str, schedules: Vec<String>) -> BackupModule {
    BackupModule {
        module_type: String::from("generic"),
        name: String::from(name),
        backup_type: None,
        schedules: Some(schedules),
        backup_paths: Some(vec![String::from("/tmp/one")]),
        pre_backup_script: None,
        post_backup_script: None,
        pre_restore_script: None,
        post_restore_script: None,
    }
}

fn client_with(modules: Vec<BackupModule>, schedules: Vec<Schedule>, version: &str) -> Client {
    Client {
        name: String::from("alpha"),
        address: String::from("10.0.0.1"),
        port: Some(8434),
        modules,
        schedules,
        config_version: Some(String::from(version)),
        server_address: String::from("srv"),
        server_port: Some(8433),
    }
}

#[test]
fn config_push_follows_version_difference() {
    let v = Some(String::from("v-1"));
    let w = Some(String::from("v-2"));
    assert!(!needs_config_push(&None, &None));
    assert!(needs_config_push(&v, &None));
    assert!(needs_config_push(&None, &v));
    assert!(!needs_config_push(&v, &v.clone()));
    assert!(needs_config_push(&v, &w));
}

#[test]
fn version_handshake_settles_after_one_push() {
    // The server holds version V; a fresh client reports no version, takes
    // the pushed record, and then reports V, so no further push happens.
    let server_version = Some(String::from("f47ac10b-58cc-4372-a567-0e02b2c3d479"));
    let mut daemon = ClientDaemon::new(Config::default());
    let reported = daemon.current_config_version();
    assert!(reported.version.is_none());
    assert!(needs_config_push(&server_version, &reported.version));

    let record = client_with(vec![], vec![], "f47ac10b-58cc-4372-a567-0e02b2c3d479");
    assert!(daemon.apply_config(record));
    let reported = daemon.current_config_version();
    assert_eq!(reported.version, server_version);
    assert!(!needs_config_push(&server_version, &reported.version));

    // Pushing the same version again replaces nothing.
    let record = client_with(vec![], vec![], "f47ac10b-58cc-4372-a567-0e02b2c3d479");
    assert!(!daemon.apply_config(record));
}

#[test]
fn active_schedule_names_follow_the_clock() {
    let monday_noon = LocalTime {
        weekday: 0,
        secs: 12 * 3600,
    };
    let schedules = vec![
        schedule_monday("work", 9 * 3600, 17 * 3600),
        schedule_monday("night", 20 * 3600, 23 * 3600),
    ];
    let names = get_active_schedules(schedules, &monday_noon);
    assert_eq!(names, vec![String::from("work")]);
}

#[test]
fn a_client_without_record_has_no_active_schedule() {
    let monday_noon = LocalTime {
        weekday: 0,
        secs: 12 * 3600,
    };
    assert!(!has_active_schedule(&None, &monday_noon));
    let c = client_with(vec![], vec![schedule_monday("work", 9 * 3600, 17 * 3600)], "v");
    assert!(has_active_schedule(&Some(c), &monday_noon));
}

#[test]
fn jobs_are_created_for_modules_with_active_schedules() {
    let monday_noon = LocalTime {
        weekday: 0,
        secs: 12 * 3600,
    };
    let schedules = vec![
        schedule_monday("work", 9 * 3600, 17 * 3600),
        schedule_monday("night", 20 * 3600, 23 * 3600),
    ];
    let modules = vec![
        module_on("on-work", vec![String::from("work")]),
        module_on("on-night", vec![String::from("night")]),
        module_on("unscheduled", vec![]),
    ];
    let c = client_with(modules, schedules, "v");
    let jobs = create_backup_jobs(&Some(c), &monday_noon);
    assert_eq!(jobs.len(), 1);
    assert_eq!(jobs[0].module.name, "on-work");
    assert_eq!(jobs[0].status, JobStatus::Pending);
    assert_eq!(jobs[0].backup_type, BackupType::Full);
    assert_eq!(jobs[0].uuid.len(), 36);
    assert!(create_backup_jobs(&None, &monday_noon).is_empty());
}

#[test]
fn enqueue_drops_candidates_for_modules_already_in_flight() {
    let monday_noon = LocalTime {
        weekday: 0,
        secs: 12 * 3600,
    };
    let schedules = vec![schedule_monday("work", 9 * 3600, 17 * 3600)];
    let modules = vec![module_on("files", vec![String::from("work")])];
    let c = client_with(modules, schedules, "v");
    let mut daemon = ClientDaemon::new(Config::default());

    let first = create_backup_jobs(&Some(c.duplicate()), &monday_noon);
    let launched = daemon.enqueue_new_jobs(first);
    assert_eq!(launched.len(), 1);
    assert_eq!(daemon.jobs.len(), 1);

    // A later tick offers a fresh candidate for the same module: dropped.
    let second = create_backup_jobs(&Some(c), &monday_noon);
    let launched = daemon.enqueue_new_jobs(second);
    assert!(launched.is_empty());
    assert_eq!(daemon.jobs.len(), 1);
}

#[test]
fn finished_jobs_are_evicted_between_windows() {
    let mut daemon = ClientDaemon::new(Config::default());
    let mut done = BackupJob::new(
        client_with(vec![], vec![], "v"),
        module_on("files", vec![]),
    );
    done.set_status(JobStatus::Done);
    let active = BackupJob::new(
        client_with(vec![], vec![], "v"),
        module_on("more-files", vec![]),
    );
    daemon.jobs = vec![done, active];
    let evicted = daemon.clean_done_jobs();
    assert_eq!(evicted, 1);
    assert_eq!(daemon.jobs.len(), 1);
    assert_eq!(daemon.jobs[0].module.name, "more-files");
}

#[test]
fn client_waits_while_no_record_arrived() {
    let mut daemon = ClientDaemon::new(Config::default());
    let (stopping, tick) = daemon.loop_func();
    assert_eq!(stopping, Stopping::No);
    assert!(matches!(tick, ClientTick::WaitingForConfig));
}

#[test]
fn server_tick_reports_missing_clients() {
    let mut daemon = ServerDaemon::new(Config::default(), Db::new());
    let (stopping, tick) = daemon.loop_func();
    assert_eq!(stopping, Stopping::No);
    assert!(matches!(tick, ServerTick::NoClients));
}

#[test]
fn server_tick_polls_each_client_and_lists_active_jobs() {
    let mut cfg = Config::default();
    cfg.clients = Some(vec![client_with(vec![], vec![], "v")]);
    let mut db = Db::new();
    let mut j = BackupJob::new(client_with(vec![], vec![], "v"), module_on("files", vec![]));
    j.set_status(JobStatus::Active);
    j.save(&mut db).unwrap();
    let mut daemon = ServerDaemon::new(cfg, db);
    let (stopping, tick) = daemon.loop_func();
    assert_eq!(stopping, Stopping::No);
    match tick {
        ServerTick::Poll(clients, jobs) => {
            assert_eq!(clients.len(), 1);
            assert_eq!(clients[0].name, "alpha");
            assert_eq!(jobs.len(), 1);
            assert_eq!(jobs[0].status, JobStatus::Active);
        }
        _ => panic!("expected a poll tick"),
    }
}

#[test]
fn run_loop_stops_on_tick_or_signal() {
    assert!(should_stop(&Stopping::Yes, &vec![]));
    assert!(!should_stop(&Stopping::No, &vec![]));
    assert!(!should_stop(&Stopping::No, &vec![Stopping::No]));
    assert!(should_stop(&Stopping::No, &vec![Stopping::No, Stopping::Yes]));
}

#[test]
fn daemons_stop_on_any_subscribed_signal() {
    assert_eq!(default_signals(), vec![Signal::Int, Signal::Term]);
    let mut server = ServerDaemon::new(Config::default(), Db::new());
    assert_eq!(server.received_signal(Signal::Int), Stopping::Yes);
    server.shutdown();
    let mut client = ClientDaemon::new(Config::default());
    assert_eq!(client.received_signal(Signal::Term), Stopping::Yes);
    client.shutdown();
}

#[test]
fn generated_identifiers_parse_as_identifiers() {
    let j = BackupJob::new(client_with(vec![], vec![], "v"), module_on("files", vec![]));
    assert_eq!(j.uuid.len(), 36);
    assert!(relique::job::parse_uuid_str(&j.uuid));
    assert!(!relique::job::parse_uuid_str("not an identifier"));
}
