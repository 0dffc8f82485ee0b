use relique::config::{
    check, collect_module_types, finalize_server_config, get_load_path, merge_module_definitions,
    BackupModule, Client, Config, ErrorLevel,
};
use relique::schedule::{Bounds, Schedule};

fn bare_module(name: &str, module_type: &str) -> BackupModule {
    BackupModule {
        module_type: String::from(module_type),
        name: String::from(name),
        backup_type: None,
        schedules: None,
        backup_paths: None,
        pre_backup_script: None,
        post_backup_script: None,
        pre_restore_script: None,
        post_restore_script: None,
    }
}

fn bare_client(name: &str, address: &str, port: Option<u32>) -> Client {
    Client {
        name: String::from(name),
        address: String::from(address),
        port,
        modules: vec![],
        schedules: vec![],
        config_version: None,
        server_address: String::from("srv"),
        server_port: None,
    }
}

fn all_day(name: &str) -> Schedule {
    Schedule {
        name: String::from(name),
        monday: Some(Bounds(vec![(0, 86399)])),
        tuesday: None,
        wednesday: None,
        thursday: None,
        friday: None,
        saturday: None,
        sunday: None,
    }
}

#[test]
fn empty_client_list_is_a_warning() {
    let mut cfg = Config::default();
    cfg.clients = Some(vec![]);
    let errors = check(&cfg);
    assert_eq!(errors.len(), 1);
    assert_eq!(errors[0].key, "clients");
    assert_eq!(errors[0].level, ErrorLevel::Warning);
    assert_eq!(errors[0].desc, "No clients defined");
    assert_eq!(
        errors[0].format_message(),
        "[Warning] No clients defined (key: 'clients')"
    );
}

#[test]
fn missing_client_list_is_the_same_warning() {
    let cfg = Config::default();
    let errors = check(&cfg);
    assert_eq!(errors.len(), 1);
    assert_eq!(errors[0].key, "clients");
    assert_eq!(errors[0].level, ErrorLevel::Warning);
}

#[test]
fn duplicate_client_names_are_critical() {
    let mut cfg = Config::default();
    cfg.clients = Some(vec![
        bare_client("alpha", "10.0.0.1", None),
        bare_client("alpha", "10.0.0.2", None),
    ]);
    let errors = check(&cfg);
    assert_eq!(errors.len(), 1);
    assert_eq!(errors[0].key, "clients.name");
    assert_eq!(errors[0].level, ErrorLevel::Critical);
    assert_eq!(
        errors[0].desc,
        "Client with duplicate names found in configuration: 'alpha'"
    );
}

#[test]
fn duplicate_address_and_port_are_critical() {
    let mut cfg = Config::default();
    cfg.clients = Some(vec![
        bare_client("alpha", "10.0.0.1", Some(8434)),
        bare_client("beta", "10.0.0.1", None),
    ]);
    let errors = check(&cfg);
    assert_eq!(errors.len(), 1);
    assert_eq!(errors[0].key, "clients.address, clients.port");
    assert_eq!(errors[0].level, ErrorLevel::Critical);
    assert_eq!(
        errors[0].desc,
        "Client with duplicate address/port found in configuration: '10.0.0.1:8434'"
    );
}

#[test]
fn distinct_clients_pass_the_checks() {
    let mut cfg = Config::default();
    cfg.clients = Some(vec![
        bare_client("alpha", "10.0.0.1", None),
        bare_client("beta", "10.0.0.2", None),
    ]);
    let errors = check(&cfg);
    assert!(errors.is_empty());
}

#[test]
fn config_defaults_match_the_documented_values() {
    let cfg = Config::default();
    assert_eq!(cfg.bind_addr.as_deref(), Some("0.0.0.0"));
    assert_eq!(cfg.public_address, "localhost");
    assert_eq!(cfg.port, Some(8433));
    assert_eq!(cfg.ssl_cert.as_deref(), Some("/etc/relique/cert.pem"));
    assert_eq!(cfg.ssl_key.as_deref(), Some("/etc/relique/key.pem"));
    assert_eq!(cfg.strict_ssl_certificate_check, Some(false));
    assert_eq!(cfg.clients_cfg_path.as_deref(), Some("clients"));
    assert_eq!(cfg.schedules_cfg_path.as_deref(), Some("schedules"));
    assert_eq!(cfg.backup_storage_path, "/opt/relique/");
}

#[test]
fn client_defaults_use_the_documented_ports() {
    let c = Client::default();
    assert_eq!(c.port, Some(8434));
    assert_eq!(c.server_port, Some(8433));
    assert!(c.modules.is_empty());
    assert!(c.config_version.is_none());
}

#[test]
fn merge_fills_only_absent_fields() {
    let mut declared = bare_module("files", "generic");
    declared.backup_paths = Some(vec![String::from("/data")]);
    let mut defaults = bare_module("ignored", "generic");
    defaults.backup_paths = Some(vec![String::from("/default")]);
    defaults.pre_backup_script = Some(String::from("/usr/bin/prep"));
    let merged = merge_module_definitions(&declared, &defaults);
    assert_eq!(merged.backup_paths, Some(vec![String::from("/data")]));
    assert_eq!(merged.pre_backup_script, Some(String::from("/usr/bin/prep")));
    assert_eq!(merged.post_backup_script, None);
    assert_eq!(merged.name, "files");
    assert_eq!(merged.module_type, "generic");
}

#[test]
fn load_path_keeps_absolute_paths() {
    let p = get_load_path("/etc/relique", Some(String::from("/srv/clients")), "clients");
    assert_eq!(p, "/srv/clients");
}

#[test]
fn load_path_resolves_relative_against_base() {
    let p = get_load_path("/etc/relique", None, "clients");
    assert_eq!(p, "/etc/relique/clients");
    let q = get_load_path("/etc/relique", Some(String::from("extra")), "clients");
    assert_eq!(q, "/etc/relique/extra");
}

#[test]
fn module_types_are_collected_once() {
    let mut a = bare_client("alpha", "10.0.0.1", None);
    a.modules = vec![bare_module("m1", "generic"), bare_module("m2", "pgsql")];
    let mut b = bare_client("beta", "10.0.0.2", None);
    b.modules = vec![bare_module("m3", "generic")];
    let types = collect_module_types(&vec![a, b]);
    assert_eq!(types.len(), 2);
    assert!(types.contains(&String::from("generic")));
    assert!(types.contains(&String::from("pgsql")));
}

#[test]
fn finalized_config_stamps_every_client() {
    let mut cfg = Config::default();
    let mut alpha = bare_client("alpha", "10.0.0.1", None);
    alpha.modules = vec![bare_module("files", "generic")];
    let beta = bare_client("beta", "10.0.0.2", None);
    let schedules = vec![all_day("work")];
    let mut defaults = bare_module("generic", "generic");
    defaults.backup_paths = Some(vec![String::from("/default/path")]);
    finalize_server_config(&mut cfg, vec![alpha, beta], schedules, &vec![defaults]);

    let version = cfg.config_version.clone().expect("a version is stamped");
    assert_eq!(version.len(), 36);
    let clients = cfg.clients.as_ref().unwrap();
    assert_eq!(clients.len(), 2);
    for client in clients {
        // Every client carries the document's version and the full schedule list.
        assert_eq!(client.config_version.as_ref(), Some(&version));
        assert_eq!(client.schedules.len(), 1);
        assert_eq!(client.schedules[0].name, "work");
    }
    // The declared module had no backup paths; the defaults supplied them.
    assert_eq!(
        clients[0].modules[0].backup_paths,
        Some(vec![String::from("/default/path")])
    );
    assert_eq!(cfg.schedules.as_ref().unwrap().len(), 1);
}
