//! The configuration of a service, with one preset for each environment in
//! which it runs.
use vstd::prelude::*;
use crate::chars::{optional_text, texts};
use crate::text::str_eq;

pub mod development;
pub mod production;
pub mod test;
pub mod utils;

verus! {

/// The configuration of a service.
#[derive(Debug, Clone)]
pub struct Config {
    pub database_url: String,
    pub port: u16,
    pub debug_mode: bool,
    pub max_connections: usize,
}

/// What a `Config` says.
pub struct ConfigModel {
    pub database_url: Seq<char>,
    pub port: u16,
    pub debug_mode: bool,
    pub max_connections: usize,
}

impl View for Config {
    type V = ConfigModel;

    open spec fn view(&self) -> ConfigModel {
        ConfigModel {
            database_url: self.database_url@,
            port: self.port,
            debug_mode: self.debug_mode,
            max_connections: self.max_connections,
        }
    }
}

/// Where a service runs.
#[derive(Debug, Clone, Copy, PartialEq, Eq, Structural)]
pub enum Environment {
    Development,
    Production,
    Test,
}

/// The preset for development.
pub open spec fn development_preset() -> ConfigModel {
    ConfigModel {
        database_url: "postgres://localhost:5432/dev_db"@,
        port: 3000,
        debug_mode: true,
        max_connections: 10,
    }
}

/// The preset for production.  The database is the one that was named,
/// or the production server where none was.
pub open spec fn production_preset(database_url: Option<Seq<char>>) -> ConfigModel {
    ConfigModel {
        database_url: match database_url {
            Some(url) => url,
            None => "postgres://prod-server:5432/prod_db"@,
        },
        port: 8080,
        debug_mode: false,
        max_connections: 100,
    }
}

/// The preset for tests.
pub open spec fn test_preset() -> ConfigModel {
    ConfigModel {
        database_url: "postgres://localhost:5432/test_db"@,
        port: 3001,
        debug_mode: true,
        max_connections: 5,
    }
}

/// The preset of an environment.
pub open spec fn preset(env: Environment, database_url: Option<Seq<char>>) -> ConfigModel {
    match env {
        Environment::Development => development_preset(),
        Environment::Production => production_preset(database_url),
        Environment::Test => test_preset(),
    }
}

/// The environment that a name stands for: `production` and `prod` are
/// production, `test` is test, and every other name, or none, is
/// development.
pub open spec fn named_environment(name: Option<Seq<char>>) -> Environment {
    match name {
        Some(name) => if name == "production"@ || name == "prod"@ {
            Environment::Production
        } else if name == "test"@ {
            Environment::Test
        } else {
            Environment::Development
        },
        None => Environment::Development,
    }
}

/// What is wrong with a configuration, in the order database address, port,
/// connections.
pub open spec fn complaints(config: ConfigModel) -> Seq<Seq<char>> {
    let url = if config.database_url.len() == 0 {
        seq!["Database URL cannot be empty"@]
    } else {
        Seq::<Seq<char>>::empty()
    };
    let port = if config.port == 0 {
        seq!["Port cannot be 0"@]
    } else {
        Seq::<Seq<char>>::empty()
    };
    let connections = if config.max_connections == 0 {
        seq!["Max connections must be at least 1"@]
    } else {
        Seq::<Seq<char>>::empty()
    };
    url + port + connections
}

impl Config {
    /// The configuration for the environment that `app_env` names, which is
    /// what the variable `APP_ENV` holds; `database_url` is what the
    /// variable `DATABASE_URL` holds.  Either may be unset.
    pub fn load(app_env: Option<String>, database_url: Option<String>) -> (config: Config)
        ensures
            config@ == preset(named_environment(optional_text(app_env)), optional_text(database_url)),
    {
        let env = match app_env {
            Some(name) => {
                if str_eq(name.as_str(), "production") || str_eq(name.as_str(), "prod") {
                    Environment::Production
                } else if str_eq(name.as_str(), "test") {
                    Environment::Test
                } else {
                    Environment::Development
                }
            },
            None => Environment::Development,
        };
        Config::for_environment(env, database_url)
    }

    /// The configuration for an environment; `database_url` is what the
    /// variable `DATABASE_URL` holds, if it is set.
    pub fn for_environment(env: Environment, database_url: Option<String>) -> (config: Config)
        ensures
            config@ == preset(env, optional_text(database_url)),
    {
        match env {
            Environment::Development => development::config(),
            Environment::Production => production::config(database_url),
            Environment::Test => test::config(),
        }
    }

    /// Accepts a configuration with a database address, a port and room for
    /// at least one connection, and says everything that is wrong with any
    /// other.
    pub fn validate(&self) -> (outcome: Result<(), Vec<String>>)
        ensures
            complaints(self@).len() == 0 ==> outcome is Ok,
            complaints(self@).len() > 0 ==> (outcome matches Err(errors) && texts(errors@)
                == complaints(self@)),
    {
        let mut errors: Vec<String> = Vec::new();
        let ghost mut said: Seq<Seq<char>> = Seq::empty();
        assert(texts(errors@) =~= said);
        if self.database_url.as_str().is_empty() {
            errors.push("Database URL cannot be empty".to_string());
            proof {
                said = said.push("Database URL cannot be empty"@);
            }
            assert(texts(errors@) =~= said);
        }
        if self.port == 0 {
            errors.push("Port cannot be 0".to_string());
            proof {
                said = said.push("Port cannot be 0"@);
            }
            assert(texts(errors@) =~= said);
        }
        if self.max_connections == 0 {
            errors.push("Max connections must be at least 1".to_string());
            proof {
                said = said.push("Max connections must be at least 1"@);
            }
            assert(texts(errors@) =~= said);
        }
        assert(said =~= complaints(self@));
        if errors.len() == 0 {
            Ok(())
        } else {
            Err(errors)
        }
    }
}

} // verus!
