//! Server settings: where the store lives, the placeholder asset, and the
//! log format.

use vstd::prelude::*;

verus! {

#[derive(Clone, Debug)]
pub struct DatabaseSettings {
    pub path: String,
}

#[derive(Clone, Debug)]
pub struct AppSettings {
    /// The placeholder asset served to new devices and to empty playlists.
    pub setup_logo_url: String,
}

#[derive(Clone, Copy, Debug, PartialEq, Eq, Structural)]
pub enum LogFormat {
    Json,
    Pretty,
}

impl Default for LogFormat {
    fn default() -> (r: LogFormat)
        ensures
            r == LogFormat::Json,
    {
        LogFormat::Json
    }
}

#[derive(Clone, Debug)]
pub struct LoggingSettings {
    pub format: LogFormat,
}

impl Default for LoggingSettings {
    fn default() -> (r: LoggingSettings)
        ensures
            r.format == LogFormat::Json,
    {
        LoggingSettings { format: LogFormat::Json }
    }
}

#[derive(Clone, Debug)]
pub struct ServerConfig {
    pub database: DatabaseSettings,
    pub app: AppSettings,
    pub logging: LoggingSettings,
}

/// Why a configuration was refused.
#[derive(Clone, Copy, Debug, PartialEq, Eq, Structural)]
pub enum ConfigError {
    MissingDatabasePath,
    MissingSetupLogoUrl,
    UnknownLogFormat,
}

/// The log format that a setting names, in lower case.
pub open spec fn log_format_named(name: Seq<char>) -> Option<LogFormat> {
    if name == seq!['j', 's', 'o', 'n'] {
        Some(LogFormat::Json)
    } else if name == seq!['p', 'r', 'e', 't', 't', 'y'] {
        Some(LogFormat::Pretty)
    } else {
        None
    }
}

impl LogFormat {
    /// The format named `name` (`"json"` or `"pretty"`).
    pub fn from_name(name: &str) -> (r: Option<LogFormat>)
        ensures
            r == log_format_named(name@),
    {
        let text = name.to_owned();
        let json = String::from_str("json");
        let pretty = String::from_str("pretty");
        proof {
            reveal_strlit("json");
            reveal_strlit("pretty");
            assert(json@ =~= seq!['j', 's', 'o', 'n']);
            assert(pretty@ =~= seq!['p', 'r', 'e', 't', 't', 'y']);
        }
        if text == json {
            Some(LogFormat::Json)
        } else if text == pretty {
            Some(LogFormat::Pretty)
        } else {
            None
        }
    }
}

impl ServerConfig {
    /// Builds the configuration from the settings as read: the database path
    /// and the placeholder asset are required, the log format is optional
    /// and defaults to JSON.
    pub fn load(
        database_path: Option<String>,
        setup_logo_url: Option<String>,
        log_format: Option<String>,
    ) -> (r: Result<ServerConfig, ConfigError>)
        ensures
            database_path is None ==> r == Err::<ServerConfig, ConfigError>(ConfigError::MissingDatabasePath),
            database_path is Some && setup_logo_url is None ==> r == Err::<ServerConfig, ConfigError>(
                ConfigError::MissingSetupLogoUrl,
            ),
            database_path is Some && setup_logo_url is Some ==> match log_format {
                Some(f) if log_format_named(f@) is None => r == Err::<ServerConfig, ConfigError>(
                    ConfigError::UnknownLogFormat,
                ),
                _ => r is Ok,
            },
            r is Ok ==> {
                let c = r.unwrap();
                &&& c.database.path@ == database_path.unwrap()@
                &&& c.app.setup_logo_url@ == setup_logo_url.unwrap()@
                &&& c.logging.format == match log_format {
                    Some(f) => log_format_named(f@).unwrap(),
                    None => LogFormat::Json,
                }
            },
    {
        let path = match database_path {
            Some(p) => p,
            None => return Err(ConfigError::MissingDatabasePath),
        };
        let logo = match setup_logo_url {
            Some(u) => u,
            None => return Err(ConfigError::MissingSetupLogoUrl),
        };
        let format = match log_format {
            Some(f) => match LogFormat::from_name(f.as_str()) {
                Some(x) => x,
                None => return Err(ConfigError::UnknownLogFormat),
            },
            None => LogFormat::Json,
        };
        Ok(
            ServerConfig {
                database: DatabaseSettings { path },
                app: AppSettings { setup_logo_url: logo },
                logging: LoggingSettings { format },
            },
        )
    }
}

} // verus!
