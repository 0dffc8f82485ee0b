//! The configuration model: clients, their backup modules, the server
//! document that binds them to schedules, and the startup checks.

use vstd::prelude::*;

use crate::job::BackupType;
use crate::schedule::{copy_schedules, Schedule, ScheduleV};
use crate::text::dec_str;
use crate::text::push_dec;

verus! {

/// Default port a client listens on.
pub const DEFAULT_CLIENT_PORT: u32 = 8434;

/// Default port a server listens on.
pub const DEFAULT_SERVER_PORT: u32 = 8433;

/// A named unit of what to back up, plus optional lifecycle scripts. The
/// optional fields are filled from the module type's defaults when a client
/// declaration omits them.
#[derive(Debug)]
pub struct BackupModule {
    pub module_type: String,
    pub name: String,
    pub backup_type: Option<BackupType>,
    pub schedules: Option<Vec<String>>,
    pub backup_paths: Option<Vec<String>>,
    pub pre_backup_script: Option<String>,
    pub post_backup_script: Option<String>,
    pub pre_restore_script: Option<String>,
    pub post_restore_script: Option<String>,
}

/// The mathematical content of a [`BackupModule`].
#[verifier::ext_equal]
pub struct BackupModuleV {
    pub module_type: Seq<char>,
    pub name: Seq<char>,
    pub backup_type: Option<BackupType>,
    pub schedules: Option<Seq<Seq<char>>>,
    pub backup_paths: Option<Seq<Seq<char>>>,
    pub pre_backup_script: Option<Seq<char>>,
    pub post_backup_script: Option<Seq<char>>,
    pub pre_restore_script: Option<Seq<char>>,
    pub post_restore_script: Option<Seq<char>>,
}

impl DeepView for BackupModule {
    type V = BackupModuleV;

    open spec fn deep_view(&self) -> BackupModuleV {
        BackupModuleV {
            module_type: self.module_type@,
            name: self.name@,
            backup_type: self.backup_type,
            schedules: self.schedules.deep_view(),
            backup_paths: self.backup_paths.deep_view(),
            pre_backup_script: self.pre_backup_script.deep_view(),
            post_backup_script: self.post_backup_script.deep_view(),
            pre_restore_script: self.pre_restore_script.deep_view(),
            post_restore_script: self.post_restore_script.deep_view(),
        }
    }
}

/// One client the server pushes configuration to, owning its modules and a
/// copy of the global schedule list.
#[derive(Debug)]
pub struct Client {
    pub name: String,
    pub address: String,
    pub port: Option<u32>,
    pub modules: Vec<BackupModule>,
    pub schedules: Vec<Schedule>,
    pub config_version: Option<String>,
    pub server_address: String,
    pub server_port: Option<u32>,
}

/// The mathematical content of a [`Client`].
#[verifier::ext_equal]
pub struct ClientV {
    pub name: Seq<char>,
    pub address: Seq<char>,
    pub port: Option<u32>,
    pub modules: Seq<BackupModuleV>,
    pub schedules: Seq<ScheduleV>,
    pub config_version: Option<Seq<char>>,
    pub server_address: Seq<char>,
    pub server_port: Option<u32>,
}

impl DeepView for Client {
    type V = ClientV;

    open spec fn deep_view(&self) -> ClientV {
        ClientV {
            name: self.name@,
            address: self.address@,
            port: self.port,
            modules: self.modules.deep_view(),
            schedules: self.schedules.deep_view(),
            config_version: self.config_version.deep_view(),
            server_address: self.server_address@,
            server_port: self.server_port,
        }
    }
}

/// The in-memory configuration document of one daemon; on a server it also
/// carries the client and schedule lists read from disk.
#[derive(Debug)]
pub struct Config {
    pub config_version: Option<String>,
    pub clients: Option<Vec<Client>>,
    pub schedules: Option<Vec<Schedule>>,
    pub bind_addr: Option<String>,
    pub public_address: String,
    pub port: Option<u32>,
    pub ssl_cert: Option<String>,
    pub ssl_key: Option<String>,
    pub strict_ssl_certificate_check: Option<bool>,
    pub clients_cfg_path: Option<String>,
    pub schedules_cfg_path: Option<String>,
    pub backup_storage_path: String,
}

/// The mathematical content of a [`Config`].
#[verifier::ext_equal]
pub struct ConfigV {
    pub config_version: Option<Seq<char>>,
    pub clients: Option<Seq<ClientV>>,
    pub schedules: Option<Seq<ScheduleV>>,
    pub bind_addr: Option<Seq<char>>,
    pub public_address: Seq<char>,
    pub port: Option<u32>,
    pub ssl_cert: Option<Seq<char>>,
    pub ssl_key: Option<Seq<char>>,
    pub strict_ssl_certificate_check: Option<bool>,
    pub clients_cfg_path: Option<Seq<char>>,
    pub schedules_cfg_path: Option<Seq<char>>,
    pub backup_storage_path: Seq<char>,
}

impl DeepView for Config {
    type V = ConfigV;

    open spec fn deep_view(&self) -> ConfigV {
        ConfigV {
            config_version: self.config_version.deep_view(),
            clients: self.clients.deep_view(),
            schedules: self.schedules.deep_view(),
            bind_addr: self.bind_addr.deep_view(),
            public_address: self.public_address@,
            port: self.port,
            ssl_cert: self.ssl_cert.deep_view(),
            ssl_key: self.ssl_key.deep_view(),
            strict_ssl_certificate_check: self.strict_ssl_certificate_check,
            clients_cfg_path: self.clients_cfg_path.deep_view(),
            schedules_cfg_path: self.schedules_cfg_path.deep_view(),
            backup_storage_path: self.backup_storage_path@,
        }
    }
}

/// The body of a client's configuration-version reply.
#[derive(Debug)]
pub struct ConfigVersion {
    pub version: Option<String>,
}

/// How severe a configuration finding is: a critical finding stops startup.
#[derive(Clone, Copy, Debug, PartialEq, Eq, Structural)]
pub enum ErrorLevel {
    Warning,
    Critical,
}

/// One configuration finding: the key it concerns, its severity and a
/// human-readable description.
#[derive(Debug)]
pub struct Error {
    pub key: String,
    pub level: ErrorLevel,
    pub desc: String,
}

/// The mathematical content of an [`Error`].
#[verifier::ext_equal]
pub struct ErrorV {
    pub key: Seq<char>,
    pub level: ErrorLevel,
    pub desc: Seq<char>,
}

impl DeepView for Error {
    type V = ErrorV;

    open spec fn deep_view(&self) -> ErrorV {
        ErrorV { key: self.key@, level: self.level, desc: self.desc@ }
    }
}

impl Error {
    /// The log line for this finding, in the form `[Level] desc (key: 'k')`.
    pub fn format_message(&self) -> (r: String)
        ensures
            r@ == "["@ + (match self.level {
                ErrorLevel::Warning => "Warning"@,
                ErrorLevel::Critical => "Critical"@,
            }) + "] "@ + self.desc@ + " (key: '"@ + self.key@ + "')"@,
    {
        let mut out = String::from_str("[");
        match self.level {
            ErrorLevel::Warning => out.append("Warning"),
            ErrorLevel::Critical => out.append("Critical"),
        }
        out.append("] ");
        out.append(self.desc.as_str());
        out.append(" (key: '");
        out.append(self.key.as_str());
        out.append("')");
        proof {
            assert(out@ =~= "["@ + (match self.level {
                ErrorLevel::Warning => "Warning"@,
                ErrorLevel::Critical => "Critical"@,
            }) + "] "@ + self.desc@ + " (key: '"@ + self.key@ + "')"@);
        }
        out
    }
}

/// A copy of an optional string with the same content.
pub fn copy_opt_string(o: &Option<String>) -> (r: Option<String>)
    ensures
        r.deep_view() == o.deep_view(),
{
    match o {
        None => None,
        Some(s) => Some(s.clone()),
    }
}

/// A copy of a string list with the same content.
pub fn copy_strings(v: &Vec<String>) -> (r: Vec<String>)
    ensures
        r.deep_view() == v.deep_view(),
{
    let mut out: Vec<String> = Vec::new();
    let mut i: usize = 0;
    while i < v.len()
        invariant
            0 <= i <= v@.len(),
            out@.len() == i,
            forall|j: int| 0 <= j < i ==> (#[trigger] out@[j])@ == v@[j]@,
        decreases v@.len() - i,
    {
        out.push(v[i].clone());
        i += 1;
    }
    proof {
        assert(out.deep_view() =~= v.deep_view());
    }
    out
}

/// A copy of an optional string list with the same content.
pub fn copy_opt_strings(o: &Option<Vec<String>>) -> (r: Option<Vec<String>>)
    ensures
        r.deep_view() == o.deep_view(),
{
    match o {
        None => None,
        Some(v) => Some(copy_strings(v)),
    }
}

impl BackupModule {
    /// A copy whose content equals this module's.
    pub fn duplicate(&self) -> (r: BackupModule)
        ensures
            r.deep_view() == self.deep_view(),
    {
        let r = BackupModule {
            module_type: self.module_type.clone(),
            name: self.name.clone(),
            backup_type: self.backup_type,
            schedules: copy_opt_strings(&self.schedules),
            backup_paths: copy_opt_strings(&self.backup_paths),
            pre_backup_script: copy_opt_string(&self.pre_backup_script),
            post_backup_script: copy_opt_string(&self.post_backup_script),
            pre_restore_script: copy_opt_string(&self.pre_restore_script),
            post_restore_script: copy_opt_string(&self.post_restore_script),
        };
        proof {
            assert(r.deep_view() =~= self.deep_view());
        }
        r
    }
}

/// A copy of a module list with the same content.
pub fn copy_modules(v: &Vec<BackupModule>) -> (r: Vec<BackupModule>)
    ensures
        r.deep_view() == v.deep_view(),
{
    let mut out: Vec<BackupModule> = Vec::new();
    let mut i: usize = 0;
    while i < v.len()
        invariant
            0 <= i <= v@.len(),
            out@.len() == i,
            forall|j: int| 0 <= j < i ==> (#[trigger] out@[j]).deep_view() == v@[j].deep_view(),
        decreases v@.len() - i,
    {
        out.push(v[i].duplicate());
        i += 1;
    }
    proof {
        assert(out.deep_view() =~= v.deep_view());
    }
    out
}

impl Client {
    /// A copy whose content equals this client's.
    pub fn duplicate(&self) -> (r: Client)
        ensures
            r.deep_view() == self.deep_view(),
    {
        let r = Client {
            name: self.name.clone(),
            address: self.address.clone(),
            port: self.port,
            modules: copy_modules(&self.modules),
            schedules: copy_schedules(&self.schedules),
            config_version: copy_opt_string(&self.config_version),
            server_address: self.server_address.clone(),
            server_port: self.server_port,
        };
        proof {
            assert(r.deep_view() =~= self.deep_view());
        }
        r
    }
}

impl Default for Client {
    /// An empty client on the default ports.
    fn default() -> (r: Client)
        ensures
            r.deep_view() == (ClientV {
                name: Seq::empty(),
                address: Seq::empty(),
                port: Some(DEFAULT_CLIENT_PORT),
                modules: Seq::empty(),
                schedules: Seq::empty(),
                config_version: None,
                server_address: Seq::empty(),
                server_port: Some(DEFAULT_SERVER_PORT),
            }),
    {
        let r = Client {
            name: String::new(),
            address: String::new(),
            port: Some(DEFAULT_CLIENT_PORT),
            modules: Vec::new(),
            schedules: Vec::new(),
            config_version: None,
            server_address: String::new(),
            server_port: Some(DEFAULT_SERVER_PORT),
        };
        proof {
            assert(r.deep_view() =~= ClientV {
                name: Seq::empty(),
                address: Seq::empty(),
                port: Some(DEFAULT_CLIENT_PORT),
                modules: Seq::empty(),
                schedules: Seq::empty(),
                config_version: None,
                server_address: Seq::empty(),
                server_port: Some(DEFAULT_SERVER_PORT),
            });
        }
        r
    }
}

impl Default for Config {
    /// A server-flavoured document with every field on its documented
    /// default.
    fn default() -> (r: Config)
        ensures
            r.deep_view() == (ConfigV {
                config_version: None,
                clients: None,
                schedules: None,
                bind_addr: Some("0.0.0.0"@),
                public_address: "localhost"@,
                port: Some(DEFAULT_SERVER_PORT),
                ssl_cert: Some("/etc/relique/cert.pem"@),
                ssl_key: Some("/etc/relique/key.pem"@),
                strict_ssl_certificate_check: Some(false),
                clients_cfg_path: Some("clients"@),
                schedules_cfg_path: Some("schedules"@),
                backup_storage_path: "/opt/relique/"@,
            }),
    {
        let r = Config {
            config_version: None,
            clients: None,
            schedules: None,
            bind_addr: Some(String::from_str("0.0.0.0")),
            public_address: String::from_str("localhost"),
            port: Some(DEFAULT_SERVER_PORT),
            ssl_cert: Some(String::from_str("/etc/relique/cert.pem")),
            ssl_key: Some(String::from_str("/etc/relique/key.pem")),
            strict_ssl_certificate_check: Some(false),
            clients_cfg_path: Some(String::from_str("clients")),
            schedules_cfg_path: Some(String::from_str("schedules")),
            backup_storage_path: String::from_str("/opt/relique/"),
        };
        proof {
            assert(r.deep_view() =~= ConfigV {
                config_version: None,
                clients: None,
                schedules: None,
                bind_addr: Some("0.0.0.0"@),
                public_address: "localhost"@,
                port: Some(DEFAULT_SERVER_PORT),
                ssl_cert: Some("/etc/relique/cert.pem"@),
                ssl_key: Some("/etc/relique/key.pem"@),
                strict_ssl_certificate_check: Some(false),
                clients_cfg_path: Some("clients"@),
                schedules_cfg_path: Some("schedules"@),
                backup_storage_path: "/opt/relique/"@,
            });
        }
        r
    }
}

/// The finding reported when a server configuration names no clients.
pub open spec fn no_clients_error_v() -> ErrorV {
    ErrorV { key: "clients"@, level: ErrorLevel::Warning, desc: "No clients defined"@ }
}

/// The port a client listens on, with the default applied.
pub open spec fn client_port_v(c: ClientV) -> u32 {
    match c.port {
        Some(p) => p,
        None => DEFAULT_CLIENT_PORT,
    }
}

/// The finding reported for a client whose name an earlier client already
/// carries.
pub open spec fn dup_name_error_v(name: Seq<char>) -> ErrorV {
    ErrorV {
        key: "clients.name"@,
        level: ErrorLevel::Critical,
        desc: "Client with duplicate names found in configuration: '"@ + name + "'"@,
    }
}

/// The finding reported for a client whose address and port an earlier
/// client already uses.
pub open spec fn dup_addr_error_v(address: Seq<char>, port: u32) -> ErrorV {
    ErrorV {
        key: "clients.address, clients.port"@,
        level: ErrorLevel::Critical,
        desc: "Client with duplicate address/port found in configuration: '"@ + address + ":"@
            + dec_str(port as int) + "'"@,
    }
}

/// The duplicate findings for the clients from index `i` on, walked in
/// order: a client whose name, or whose address and effective port, some
/// earlier client already used contributes one finding each, name first.
pub open spec fn dup_errors_from(cs: Seq<ClientV>, i: int) -> Seq<ErrorV>
    decreases cs.len() - i when i >= 0
{
    if i >= cs.len() {
        Seq::empty()
    } else {
        (if exists|j: int| 0 <= j < i && (#[trigger] cs[j]).name == cs[i].name {
            seq![dup_name_error_v(cs[i].name)]
        } else {
            Seq::empty()
        }) + (if exists|j: int|
            0 <= j < i && (#[trigger] cs[j]).address == cs[i].address && client_port_v(cs[j])
                == client_port_v(cs[i]) {
            seq![dup_addr_error_v(cs[i].address, client_port_v(cs[i]))]
        } else {
            Seq::empty()
        }) + dup_errors_from(cs, i + 1)
    }
}

/// Everything the startup check reports for one configuration document.
pub open spec fn check_spec(cfg: ConfigV) -> Seq<ErrorV> {
    let cs = match cfg.clients {
        None => Seq::<ClientV>::empty(),
        Some(cs) => cs,
    };
    (if cs.len() == 0 {
        seq![no_clients_error_v()]
    } else {
        Seq::<ErrorV>::empty()
    }) + dup_errors_from(cs, 0)
}

/// Runs the startup checks on a configuration document: a warning when no
/// client is declared, and a critical finding for every duplicated client
/// name and every duplicated address/port pair, exactly as [`check_spec`]
/// lists them.
pub fn check(cfg: &Config) -> (r: Vec<Error>)
    ensures
        r.deep_view() == check_spec(cfg.deep_view()),
{
    let ghost cfgv = cfg.deep_view();
    let mut errors: Vec<Error> = Vec::new();
    let clients_count: usize = match &cfg.clients {
        None => 0,
        Some(cs) => cs.len(),
    };
    if clients_count == 0 {
        errors.push(
            Error {
                key: String::from_str("clients"),
                level: ErrorLevel::Warning,
                desc: String::from_str("No clients defined"),
            },
        );
    }
    let ghost head = errors.deep_view();
    proof {
        assert(head =~= if clients_count == 0 {
            seq![no_clients_error_v()]
        } else {
            Seq::<ErrorV>::empty()
        });
    }
    match &cfg.clients {
        None => {
            proof {
                assert(errors.deep_view() =~= check_spec(cfgv));
            }
            errors
        },
        Some(cs) => {
            let ghost csv = cs.deep_view();
            proof {
                assert(cfgv.clients == Some(csv));
                assert(check_spec(cfgv) == head + dup_errors_from(csv, 0));
            }
            let mut i: usize = 0;
            while i < cs.len()
                invariant
                    0 <= i <= cs@.len(),
                    csv == cs.deep_view(),
                    csv.len() == cs@.len(),
                    check_spec(cfgv) == errors.deep_view() + dup_errors_from(csv, i as int),
                decreases cs@.len() - i,
            {
                let ghost before = errors.deep_view();
                let mut name_dup = false;
                let mut addr_dup = false;
                let port_i: u32 = match cs[i].port {
                    Some(p) => p,
                    None => DEFAULT_CLIENT_PORT,
                };
                proof {
                    assert(csv[i as int] == cs@[i as int].deep_view());
                    assert(port_i == client_port_v(csv[i as int]));
                }
                let mut j: usize = 0;
                while j < i
                    invariant
                        0 <= j <= i < cs@.len(),
                        csv == cs.deep_view(),
                        csv.len() == cs@.len(),
                        port_i == client_port_v(csv[i as int]),
                        name_dup == exists|k: int|
                            0 <= k < j && (#[trigger] csv[k]).name == csv[i as int].name,
                        addr_dup == exists|k: int|
                            0 <= k < j && (#[trigger] csv[k]).address == csv[i as int].address
                                && client_port_v(csv[k]) == client_port_v(csv[i as int]),
                    decreases i - j,
                {
                    proof {
                        assert(csv[j as int] == cs@[j as int].deep_view());
                    }
                    if cs[j].name == cs[i].name {
                        name_dup = true;
                        proof {
                            assert(csv[j as int].name == csv[i as int].name);
                        }
                    }
                    let port_j: u32 = match cs[j].port {
                        Some(p) => p,
                        None => DEFAULT_CLIENT_PORT,
                    };
                    if cs[j].address == cs[i].address && port_j == port_i {
                        addr_dup = true;
                        proof {
                            assert(csv[j as int].address == csv[i as int].address
                                && client_port_v(csv[j as int]) == client_port_v(csv[i as int]));
                        }
                    }
                    j += 1;
                }
                if name_dup {
                    let mut desc = String::from_str(
                        "Client with duplicate names found in configuration: '",
                    );
                    desc.append(cs[i].name.as_str());
                    desc.append("'");
                    let e = Error {
                        key: String::from_str("clients.name"),
                        level: ErrorLevel::Critical,
                        desc,
                    };
                    proof {
                        assert(e.deep_view() =~= dup_name_error_v(csv[i as int].name));
                    }
                    errors.push(e);
                }
                if addr_dup {
                    let mut desc = String::from_str(
                        "Client with duplicate address/port found in configuration: '",
                    );
                    desc.append(cs[i].address.as_str());
                    desc.append(":");
                    push_dec(&mut desc, port_i);
                    desc.append("'");
                    let e = Error {
                        key: String::from_str("clients.address, clients.port"),
                        level: ErrorLevel::Critical,
                        desc,
                    };
                    proof {
                        assert(e.deep_view() =~= dup_addr_error_v(
                            csv[i as int].address,
                            client_port_v(csv[i as int]),
                        ));
                    }
                    errors.push(e);
                }
                proof {
                    assert(errors.deep_view() =~= before + (if name_dup {
                        seq![dup_name_error_v(csv[i as int].name)]
                    } else {
                        Seq::<ErrorV>::empty()
                    }) + (if addr_dup {
                        seq![dup_addr_error_v(csv[i as int].address, client_port_v(csv[i as int]))]
                    } else {
                        Seq::<ErrorV>::empty()
                    }));
                    assert(check_spec(cfgv) =~= errors.deep_view() + dup_errors_from(
                        csv,
                        i as int + 1,
                    ));
                }
                i += 1;
            }
            proof {
                assert(dup_errors_from(csv, i as int) =~= Seq::<ErrorV>::empty());
                assert(errors.deep_view() =~= check_spec(cfgv));
            }
            errors
        },
    }
}

impl Default for ConfigVersion {
    /// A reply that reports no version yet.
    fn default() -> (r: ConfigVersion)
        ensures
            r.version is None,
    {
        ConfigVersion { version: None }
    }
}

/// Relies on uuid's `Uuid::new_v4` and its `Display` form: a fresh random
/// identifier written as 36 hyphenated characters. Nothing relates two calls.
#[verifier::external_body]
pub fn generate_uuid() -> (r: String)
    ensures
        r@.len() == 36,
{
    uuid::Uuid::new_v4().to_string()
}

/// A module declaration with the per-field defaults applied: each optional
/// backup-path or script field absent from `d` is taken from `base`;
/// everything else keeps `d`'s value.
pub open spec fn merge_module_v(d: BackupModuleV, base: BackupModuleV) -> BackupModuleV {
    BackupModuleV {
        backup_paths: if d.backup_paths is Some {
            d.backup_paths
        } else {
            base.backup_paths
        },
        pre_backup_script: if d.pre_backup_script is Some {
            d.pre_backup_script
        } else {
            base.pre_backup_script
        },
        post_backup_script: if d.post_backup_script is Some {
            d.post_backup_script
        } else {
            base.post_backup_script
        },
        pre_restore_script: if d.pre_restore_script is Some {
            d.pre_restore_script
        } else {
            base.pre_restore_script
        },
        post_restore_script: if d.post_restore_script is Some {
            d.post_restore_script
        } else {
            base.post_restore_script
        },
        ..d
    }
}

/// Fills the optional fields of a module declaration from the default values
/// of its module type, field by field, as [`merge_module_v`] describes.
pub fn merge_module_definitions(def: &BackupModule, default_values: &BackupModule) -> (r:
    BackupModule)
    ensures
        r.deep_view() == merge_module_v(def.deep_view(), default_values.deep_view()),
{
    let r = BackupModule {
        module_type: def.module_type.clone(),
        name: def.name.clone(),
        backup_type: def.backup_type,
        schedules: copy_opt_strings(&def.schedules),
        backup_paths: match &def.backup_paths {
            Some(_) => copy_opt_strings(&def.backup_paths),
            None => copy_opt_strings(&default_values.backup_paths),
        },
        pre_backup_script: match &def.pre_backup_script {
            Some(_) => copy_opt_string(&def.pre_backup_script),
            None => copy_opt_string(&default_values.pre_backup_script),
        },
        post_backup_script: match &def.post_backup_script {
            Some(_) => copy_opt_string(&def.post_backup_script),
            None => copy_opt_string(&default_values.post_backup_script),
        },
        pre_restore_script: match &def.pre_restore_script {
            Some(_) => copy_opt_string(&def.pre_restore_script),
            None => copy_opt_string(&default_values.pre_restore_script),
        },
        post_restore_script: match &def.post_restore_script {
            Some(_) => copy_opt_string(&def.post_restore_script),
            None => copy_opt_string(&default_values.post_restore_script),
        },
    };
    proof {
        assert(r.deep_view() =~= merge_module_v(def.deep_view(), default_values.deep_view()));
    }
    r
}

/// The first entry of `defaults` whose module type is `t`, if any.
pub open spec fn find_default_v(defaults: Seq<BackupModuleV>, t: Seq<char>) -> Option<
    BackupModuleV,
>
    decreases defaults.len(),
{
    if defaults.len() == 0 {
        None
    } else if defaults[0].module_type == t {
        Some(defaults[0])
    } else {
        find_default_v(defaults.drop_first(), t)
    }
}

/// A module declaration after default application: merged with the first
/// default entry for its module type, or left as it stands when none is
/// known.
pub open spec fn apply_defaults_v(m: BackupModuleV, defaults: Seq<BackupModuleV>) -> BackupModuleV {
    match find_default_v(defaults, m.module_type) {
        None => m,
        Some(d) => merge_module_v(m, d),
    }
}

/// The first entry of `defaults` whose module type is `t`, if any.
pub fn find_default<'a>(defaults: &'a Vec<BackupModule>, t: &str) -> (r: Option<&'a BackupModule>)
    ensures
        match r {
            None => find_default_v(defaults.deep_view(), t@) is None,
            Some(d) => find_default_v(defaults.deep_view(), t@) == Some(d.deep_view()),
        },
{
    let ghost dv = defaults.deep_view();
    let t_s = String::from_str(t);
    let mut i: usize = 0;
    proof {
        assert(dv.skip(0) =~= dv);
    }
    while i < defaults.len()
        invariant
            0 <= i <= defaults@.len(),
            dv == defaults.deep_view(),
            dv.len() == defaults@.len(),
            t_s@ == t@,
            find_default_v(dv, t@) == find_default_v(dv.skip(i as int), t@),
        decreases defaults@.len() - i,
    {
        proof {
            assert(dv.skip(i as int)[0] == dv[i as int]);
            assert(dv.skip(i as int).drop_first() =~= dv.skip(i as int + 1));
            assert(dv[i as int] == defaults@[i as int].deep_view());
        }
        if defaults[i].module_type == t_s {
            return Some(&defaults[i]);
        }
        i += 1;
    }
    proof {
        assert(dv.skip(i as int) =~= Seq::<BackupModuleV>::empty());
    }
    None
}

/// Whether some entry of `ss` is `t`.
pub open spec fn contains_str(ss: Seq<Seq<char>>, t: Seq<char>) -> bool {
    exists|k: int| 0 <= k < ss.len() && ss[k] == t
}

/// Appending an entry keeps every entry already present, adds the new one,
/// and adds nothing else.
pub proof fn lemma_contains_str_push(ss: Seq<Seq<char>>, x: Seq<char>)
    ensures
        forall|t: Seq<char>| #[trigger] contains_str(ss, t) ==> contains_str(ss.push(x), t),
        contains_str(ss.push(x), x),
        forall|t: Seq<char>| #[trigger]
            contains_str(ss.push(x), t) ==> contains_str(ss, t) || t == x,
{
    assert forall|t: Seq<char>| #[trigger] contains_str(ss, t) implies contains_str(
        ss.push(x),
        t,
    ) by {
        let k = choose|k: int| 0 <= k < ss.len() && ss[k] == t;
        assert(ss.push(x)[k] == t);
    }
    assert(ss.push(x)[ss.len() as int] == x);
}

/// Whether `t` is the module type of some module of some client.
pub open spec fn is_module_type_of(cs: Seq<ClientV>, t: Seq<char>) -> bool {
    exists|p: int, q: int|
        0 <= p < cs.len() && 0 <= q < cs[p].modules.len() && (#[trigger] cs[p].modules[q]).module_type
            == t
}

/// The module types named across all clients, each once; these are the types
/// whose default files a loader must read.
pub fn collect_module_types(clients: &Vec<Client>) -> (r: Vec<String>)
    ensures
        forall|a: int, b: int|
            0 <= a < b < r.deep_view().len() ==> #[trigger] r.deep_view()[a] != #[trigger] r.deep_view()[b],
        forall|i: int, m: int|
            0 <= i < clients.deep_view().len() && 0 <= m < clients.deep_view()[i].modules.len()
                ==> contains_str(
                r.deep_view(),
                (#[trigger] clients.deep_view()[i].modules[m]).module_type,
            ),
        forall|k: int|
            0 <= k < r.deep_view().len() ==> is_module_type_of(
                clients.deep_view(),
                #[trigger] r.deep_view()[k],
            ),
{
    let ghost cv = clients.deep_view();
    let mut out: Vec<String> = Vec::new();
    let mut i: usize = 0;
    while i < clients.len()
        invariant
            0 <= i <= clients@.len(),
            cv == clients.deep_view(),
            cv.len() == clients@.len(),
            forall|a: int, b: int|
                0 <= a < b < out.deep_view().len() ==> #[trigger] out.deep_view()[a]
                    != #[trigger] out.deep_view()[b],
            forall|p: int, q: int|
                0 <= p < i && 0 <= q < cv[p].modules.len() ==> contains_str(
                    out.deep_view(),
                    (#[trigger] cv[p].modules[q]).module_type,
                ),
            forall|k: int|
                0 <= k < out.deep_view().len() ==> is_module_type_of(
                    cv,
                    #[trigger] out.deep_view()[k],
                ),
        decreases clients@.len() - i,
    {
        let c = &clients[i];
        let mut m: usize = 0;
        while m < c.modules.len()
            invariant
                0 <= m <= c.modules@.len(),
                cv == clients.deep_view(),
                cv.len() == clients@.len(),
                0 <= i < clients@.len(),
                c == &clients@[i as int],
                c.deep_view() == cv[i as int],
                forall|a: int, b: int|
                    0 <= a < b < out.deep_view().len() ==> #[trigger] out.deep_view()[a]
                        != #[trigger] out.deep_view()[b],
                forall|p: int, q: int|
                    0 <= p < i && 0 <= q < cv[p].modules.len() ==> contains_str(
                        out.deep_view(),
                        (#[trigger] cv[p].modules[q]).module_type,
                    ),
                forall|q: int|
                    0 <= q < m ==> contains_str(
                        out.deep_view(),
                        (#[trigger] cv[i as int].modules[q]).module_type,
                    ),
                forall|k: int|
                    0 <= k < out.deep_view().len() ==> is_module_type_of(
                        cv,
                        #[trigger] out.deep_view()[k],
                    ),
            decreases c.modules@.len() - m,
        {
            let ghost t = cv[i as int].modules[m as int].module_type;
            proof {
                assert(cv[i as int].modules[m as int] == c.modules@[m as int].deep_view());
            }
            let mut seen = false;
            let mut k: usize = 0;
            while k < out.len()
                invariant
                    0 <= k <= out@.len(),
                    out@.len() == out.deep_view().len(),
                    0 <= m < c.modules@.len(),
                    c == &clients@[i as int],
                    t == c.modules@[m as int].deep_view().module_type,
                    seen == exists|s: int| 0 <= s < k && (#[trigger] out.deep_view()[s]) == t,
                decreases out@.len() - k,
            {
                proof {
                    assert(out.deep_view()[k as int] == out@[k as int]@);
                }
                if out[k] == c.modules[m].module_type {
                    seen = true;
                }
                k += 1;
            }
            proof {
                assert(seen == contains_str(out.deep_view(), t));
            }
            if !seen {
                let ghost dv_before = out.deep_view();
                out.push(c.modules[m].module_type.clone());
                proof {
                    assert(out.deep_view() =~= dv_before.push(t));
                    lemma_contains_str_push(dv_before, t);
                    assert forall|a: int, b: int|
                        0 <= a < b < out.deep_view().len() implies #[trigger] out.deep_view()[a]
                        != #[trigger] out.deep_view()[b] by {
                        if b == out.deep_view().len() - 1 {
                            assert(out.deep_view()[a] == dv_before[a]);
                            assert(contains_str(dv_before, dv_before[a]));
                        }
                    }
                    assert forall|k2: int|
                        0 <= k2 < out.deep_view().len() implies is_module_type_of(
                        cv,
                        #[trigger] out.deep_view()[k2],
                    ) by {
                        if k2 == out.deep_view().len() - 1 {
                            assert(out.deep_view()[k2] == t);
                            assert(cv[i as int].modules[m as int].module_type == t);
                        } else {
                            assert(out.deep_view()[k2] == dv_before[k2]);
                        }
                    }
                }
            }
            proof {
                assert forall|q: int|
                    0 <= q < m + 1 implies contains_str(
                    out.deep_view(),
                    (#[trigger] cv[i as int].modules[q]).module_type,
                ) by {
                    if q == m as int {
                        assert(contains_str(out.deep_view(), t));
                    }
                }
            }
            m += 1;
        }
        i += 1;
    }
    out
}

/// Finishes a freshly parsed server document: stamps a new configuration
/// version, hands every client the full schedule list and the version, and
/// fills each module's optional fields from the defaults of its module type.
pub fn finalize_server_config(
    cfg: &mut Config,
    clients: Vec<Client>,
    schedules: Vec<Schedule>,
    defaults: &Vec<BackupModule>,
)
    ensures
        final(cfg).config_version matches Some(v) && v@.len() == 36,
        final(cfg).schedules matches Some(ss) && ss.deep_view() == schedules.deep_view(),
        final(cfg).clients matches Some(cs) && cs.deep_view().len() == clients.deep_view().len()
            && forall|i: int|
            0 <= i < cs.deep_view().len() ==> {
                let c = #[trigger] cs.deep_view()[i];
                let orig = clients.deep_view()[i];
                &&& c.config_version == final(cfg).config_version.deep_view()
                &&& c.schedules == schedules.deep_view()
                &&& c.name == orig.name
                &&& c.address == orig.address
                &&& c.port == orig.port
                &&& c.server_address == orig.server_address
                &&& c.server_port == orig.server_port
                &&& c.modules.len() == orig.modules.len()
                &&& forall|m: int|
                    0 <= m < c.modules.len() ==> #[trigger] c.modules[m] == apply_defaults_v(
                        orig.modules[m],
                        defaults.deep_view(),
                    )
            },
        final(cfg).bind_addr == old(cfg).bind_addr,
        final(cfg).public_address == old(cfg).public_address,
        final(cfg).port == old(cfg).port,
        final(cfg).ssl_cert == old(cfg).ssl_cert,
        final(cfg).ssl_key == old(cfg).ssl_key,
        final(cfg).strict_ssl_certificate_check == old(cfg).strict_ssl_certificate_check,
        final(cfg).clients_cfg_path == old(cfg).clients_cfg_path,
        final(cfg).schedules_cfg_path == old(cfg).schedules_cfg_path,
        final(cfg).backup_storage_path == old(cfg).backup_storage_path,
{
    let version = generate_uuid();
    let ghost versionv = version@;
    let mut out_clients: Vec<Client> = Vec::new();
    let mut i: usize = 0;
    while i < clients.len()
        invariant
            0 <= i <= clients@.len(),
            versionv.len() == 36,
            version@ == versionv,
            out_clients@.len() == i,
            forall|p: int|
                0 <= p < i ==> {
                    let c = (#[trigger] out_clients@[p]).deep_view();
                    let orig = clients@[p].deep_view();
                    &&& c.config_version == Some(versionv)
                    &&& c.schedules == schedules.deep_view()
                    &&& c.name == orig.name
                    &&& c.address == orig.address
                    &&& c.port == orig.port
                    &&& c.server_address == orig.server_address
                    &&& c.server_port == orig.server_port
                    &&& c.modules.len() == orig.modules.len()
                    &&& forall|m: int|
                        0 <= m < c.modules.len() ==> #[trigger] c.modules[m] == apply_defaults_v(
                            orig.modules[m],
                            defaults.deep_view(),
                        )
                },
        decreases clients@.len() - i,
    {
        let src = &clients[i];
        let mut merged: Vec<BackupModule> = Vec::new();
        let mut m: usize = 0;
        while m < src.modules.len()
            invariant
                0 <= m <= src.modules@.len(),
                src == &clients@[i as int],
                merged@.len() == m,
                forall|q: int|
                    0 <= q < m ==> (#[trigger] merged@[q]).deep_view() == apply_defaults_v(
                        src.modules@[q].deep_view(),
                        defaults.deep_view(),
                    ),
            decreases src.modules@.len() - m,
        {
            let module = &src.modules[m];
            let updated = match find_default(defaults, module.module_type.as_str()) {
                None => module.duplicate(),
                Some(d) => merge_module_definitions(module, d),
            };
            merged.push(updated);
            m += 1;
        }
        let stamped = Client {
            name: src.name.clone(),
            address: src.address.clone(),
            port: src.port,
            modules: merged,
            schedules: copy_schedules(&schedules),
            config_version: Some(version.clone()),
            server_address: src.server_address.clone(),
            server_port: src.server_port,
        };
        proof {
            let sv = stamped.deep_view();
            let orig = clients@[i as int].deep_view();
            assert(sv.config_version == Some(versionv));
            assert(sv.schedules == schedules.deep_view());
            assert(sv.name == orig.name);
            assert(sv.address == orig.address);
            assert(sv.modules.len() == orig.modules.len());
            assert forall|q: int| 0 <= q < sv.modules.len() implies #[trigger] sv.modules[q]
                == apply_defaults_v(orig.modules[q], defaults.deep_view()) by {
                assert(sv.modules[q] == merged@[q].deep_view());
                assert(orig.modules[q] == clients@[i as int].modules@[q].deep_view());
            }
        }
        out_clients.push(stamped);
        i += 1;
    }
    cfg.config_version = Some(version);
    cfg.schedules = Some(schedules);
    cfg.clients = Some(out_clients);
}

/// Where a directory of configuration files lies: the configured path when
/// absolute, otherwise resolved against the directory of the main
/// configuration file; a missing setting falls back to the given default
/// name.
pub open spec fn load_path_v(
    base_dir: Seq<char>,
    path: Option<Seq<char>>,
    default: Seq<char>,
) -> Seq<char> {
    let chosen = match path {
        Some(p) => p,
        None => default,
    };
    if chosen.len() > 0 && chosen[0] == '/' {
        chosen
    } else {
        base_dir + "/"@ + chosen
    }
}

/// Resolves the directory holding client or schedule files, as
/// [`load_path_v`] describes.
pub fn get_load_path(base_dir: &str, path: Option<String>, default: &str) -> (r: String)
    ensures
        r@ == load_path_v(base_dir@, path.deep_view(), default@),
{
    let chosen: String = match path {
        Some(p) => p,
        None => String::from_str(default),
    };
    let absolute = chosen.as_str().unicode_len() > 0 && chosen.as_str().get_char(0) == '/';
    if absolute {
        chosen
    } else {
        let mut out = String::from_str(base_dir);
        out.append("/");
        out.append(chosen.as_str());
        proof {
            assert(out@ =~= load_path_v(base_dir@, path.deep_view(), default@));
        }
        out
    }
}

} // verus!
