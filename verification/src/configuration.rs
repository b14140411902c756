//! The agent's settings, as plain values.
//!
//! Reading them from files and from the environment is the work of the
//! program around this library; here are the types, their defaults, and what
//! the library derives from them.

use vstd::prelude::*;
use vstd::string::StringExecFns;

verus! {

/// The versions of the agent that the hub knows of.
#[derive(Clone, Debug, PartialEq, Eq)]
pub struct AgentData {
    pub latest_version: String,
    pub minimal_version: String,
}

/// The directories that are enumerated once at startup.
#[derive(Clone, Debug, PartialEq, Eq)]
pub struct FileListerConfig {
    pub dir: Vec<String>,
}

/// The directories that are watched for changes.
#[derive(Clone, Debug, PartialEq, Eq)]
pub struct FileWatcherConfig {
    pub dir: Vec<String>,
}

/// The query server's address and the level at which it logs.
#[derive(Clone, Debug, PartialEq, Eq)]
pub struct ServerConfig {
    pub address: String,
    pub log_level: String,
}

#[derive(Clone, Debug, PartialEq, Eq)]
pub struct HttpConfig {
    pub host: String,
    pub auth_path: String,
}

/// Where the hub is, and how often to try to reach it.
#[derive(Clone, Debug, PartialEq, Eq)]
pub struct HubConfig {
    pub host: String,
    pub port: String,
    pub protocol: String,
    pub auth_path: String,
    pub disconnect_path: String,
    pub connection_attempt_limit: u32,
}

#[derive(Clone, Debug, PartialEq, Eq)]
pub struct LoggerConfig {
    pub term_level: String,
    pub file_level: String,
}

/// Where the metadata store keeps its records, and whether it starts empty.
#[derive(Default, Clone, Debug, PartialEq, Eq)]
pub struct MyFilesConfiguration {
    pub db_path: String,
    pub drop_db_on_start: bool,
}

/// All settings of the agent.
#[derive(Clone, Debug, PartialEq, Eq)]
pub struct Configuration {
    pub agent_data: AgentData,
    pub file_lister_config: FileListerConfig,
    pub file_watcher_config: FileWatcherConfig,
    pub server_config: ServerConfig,
    pub logger_config: LoggerConfig,
    pub my_files_config: MyFilesConfiguration,
    pub hub_config: HubConfig,
}

impl HubConfig {
    /// The address of the hub's registration endpoint: protocol, `://`, host,
    /// `:`, port, then the registration path.
    pub open spec fn spec_auth_url(&self) -> Seq<char> {
        self.protocol@ + "://"@ + self.host@ + ":"@ + self.port@ + self.auth_path@
    }

    /// The address to which the agent posts its registration.
    pub fn auth_url(&self) -> (url: String)
        ensures
            url@ == self.spec_auth_url(),
    {
        let mut url = self.protocol.clone();
        url.append("://");
        url.append(self.host.as_str());
        url.append(":");
        url.append(self.port.as_str());
        url.append(self.auth_path.as_str());
        url
    }
}

impl Configuration {
    /// Whether these are the settings that the agent falls back on.
    pub open spec fn is_default(&self) -> bool {
        &&& self.agent_data.latest_version@ == Seq::<char>::empty()
        &&& self.agent_data.minimal_version@ == Seq::<char>::empty()
        &&& self.file_lister_config.dir@.len() == 1
        &&& self.file_lister_config.dir@[0]@ == "tests/assets/test_folder"@
        &&& self.file_watcher_config.dir@.len() == 1
        &&& self.file_watcher_config.dir@[0]@ == "tests/assets/test_folder"@
        &&& self.server_config.address@ == "0.0.0.0:8111"@
        &&& self.server_config.log_level@ == "info"@
        &&& self.hub_config.host@ == "localhost"@
        &&& self.hub_config.port@ == "7001"@
        &&& self.hub_config.protocol@ == "http"@
        &&& self.hub_config.auth_path@ == "/gateway/auth/AOTH"@
        &&& self.hub_config.disconnect_path@ == "/gateway/auth/AOTH/{agent_id}/disconnect"@
        &&& self.hub_config.connection_attempt_limit == 30
        &&& self.logger_config.term_level@ == "debug"@
        &&& self.logger_config.file_level@ == "warn"@
        &&& self.my_files_config.db_path@ == "my_files.db"@
        &&& !self.my_files_config.drop_db_on_start
    }
}

impl Default for Configuration {
    /// The settings that the agent falls back on when none can be read.
    fn default() -> (configuration: Configuration)
        ensures
            configuration.is_default(),
    {
        let mut listed: Vec<String> = Vec::new();
        listed.push("tests/assets/test_folder".to_owned());
        let mut watched: Vec<String> = Vec::new();
        watched.push("tests/assets/test_folder".to_owned());
        Configuration {
            agent_data: AgentData {
                latest_version: String::new(),
                minimal_version: String::new(),
            },
            file_lister_config: FileListerConfig { dir: listed },
            file_watcher_config: FileWatcherConfig { dir: watched },
            server_config: ServerConfig {
                address: "0.0.0.0:8111".to_owned(),
                log_level: "info".to_owned(),
            },
            hub_config: HubConfig {
                host: "localhost".to_owned(),
                port: "7001".to_owned(),
                protocol: "http".to_owned(),
                auth_path: "/gateway/auth/AOTH".to_owned(),
                disconnect_path: "/gateway/auth/AOTH/{agent_id}/disconnect".to_owned(),
                connection_attempt_limit: 30,
            },
            logger_config: LoggerConfig {
                term_level: "debug".to_owned(),
                file_level: "warn".to_owned(),
            },
            my_files_config: MyFilesConfiguration {
                db_path: "my_files.db".to_owned(),
                drop_db_on_start: false,
            },
        }
    }
}

} // verus!
