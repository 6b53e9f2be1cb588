//! Configuration records and their defaults. Loading and saving them is done
//! by the application around the library.
use vstd::prelude::*;
use crate::model::User;

verus! {

/// How the application is hosted.
#[derive(Clone, Copy, Debug, PartialEq, Eq, Structural)]
pub enum ConfigMode {
    Standalone,
    Tauri,
}

/// HTTP surface settings.
#[derive(Clone, Debug)]
pub struct WebServerConfig {
    pub host: String,
    pub port: u16,
    pub enable_cors: bool,
    pub enable_websocket: bool,
    pub static_files_path: Option<String>,
    pub request_timeout: u64,
}

impl Default for WebServerConfig {
    fn default() -> (r: WebServerConfig)
        ensures
            r.host@ == "127.0.0.1"@,
            r.port == 8989,
            r.enable_cors,
            r.enable_websocket,
            r.static_files_path matches Some(p) && p@ == "public"@,
            r.request_timeout == 30,
    {
        WebServerConfig {
            host: "127.0.0.1".to_string(),
            port: 8989,
            enable_cors: true,
            enable_websocket: true,
            static_files_path: Some("public".to_string()),
            request_timeout: 30,
        }
    }
}

/// Persistence settings of the aggregate store.
#[derive(Clone, Debug)]
pub struct DataManagerConfig {
    pub cache_file_path: String,
    pub settings_file_path: String,
    pub skill_config_path: Option<String>,
    pub auto_save_interval: u64,
    pub max_cache_age: u64,
    pub enable_persistence: bool,
}

impl Default for DataManagerConfig {
    fn default() -> (r: DataManagerConfig)
        ensures
            r.cache_file_path@ == "users.json"@,
            r.settings_file_path@ == "settings.json"@,
            r.skill_config_path matches Some(p) && p@ == "tables/skill_names.json"@,
            r.auto_save_interval == 300,
            r.max_cache_age == 30,
            r.enable_persistence,
    {
        DataManagerConfig {
            cache_file_path: "users.json".to_string(),
            settings_file_path: "settings.json".to_string(),
            skill_config_path: Some("tables/skill_names.json".to_string()),
            auto_save_interval: 300,
            max_cache_age: 30,
            enable_persistence: true,
        }
    }
}

/// Logging settings.
#[derive(Clone, Debug)]
pub struct LoggingConfig {
    pub level: String,
    pub enable_file_logging: bool,
    pub log_file_path: Option<String>,
    pub max_log_files: usize,
    pub max_log_size: u64,
    pub enable_console_logging: bool,
}

impl Default for LoggingConfig {
    fn default() -> (r: LoggingConfig)
        ensures
            r.level@ == "info"@,
            r.enable_file_logging,
            r.log_file_path matches Some(p) && p@ == "logs/meter-core.log"@,
            r.max_log_files == 5,
            r.max_log_size == 10,
            r.enable_console_logging,
    {
        LoggingConfig {
            level: "info".to_string(),
            enable_file_logging: true,
            log_file_path: Some("logs/meter-core.log".to_string()),
            max_log_files: 5,
            max_log_size: 10,
            enable_console_logging: true,
        }
    }
}

/// Command-line overrides.
#[derive(Clone, Debug)]
pub struct AppArgs {
    pub host: Option<String>,
    pub port: Option<u16>,
    pub log_level: Option<String>,
    pub config_file: Option<String>,
    pub interface: Option<String>,
    pub verbose: bool,
    pub daemon: bool,
}

/// Watches a configuration file by its modification time (milliseconds since the epoch).
#[derive(Clone, Debug)]
pub struct ConfigWatcher {
    pub config_path: String,
    pub last_modified: u64,
}

impl ConfigWatcher {
    pub fn new(config_path: String) -> (r: ConfigWatcher)
        ensures
            r.config_path@ == config_path@,
            r.last_modified == 0,
    {
        ConfigWatcher { config_path, last_modified: 0 }
    }

    /// Takes the file's current modification time; true when it is newer than the last one seen.
    pub fn check_for_changes(&mut self, modified: u64) -> (changed: bool)
        ensures
            changed == (modified > old(self).last_modified),
            final(self).last_modified == if changed { modified } else { old(self).last_modified },
            final(self).config_path@ == old(self).config_path@,
    {
        if modified > self.last_modified {
            self.last_modified = modified;
            true
        } else {
            false
        }
    }
}

/// The identity fields of a player that persist across runs.
#[derive(Clone, Debug)]
pub struct UserCache {
    pub uid: u32,
    pub name: String,
    pub profession: String,
    pub fight_point: u32,
    pub max_hp: u32,
}

impl UserCache {
    /// The persisted identity of `u`.
    pub fn from_user(u: &User) -> (r: UserCache)
        ensures
            r.uid == u.uid,
            r.name@ == u.name@,
            r.profession@ == u.profession@,
            r.fight_point == u.fight_point,
            r.max_hp == u.max_hp,
    {
        UserCache {
            uid: u.uid,
            name: u.name.clone(),
            profession: u.profession.clone(),
            fight_point: u.fight_point,
            max_hp: u.max_hp,
        }
    }
}

} // verus!
