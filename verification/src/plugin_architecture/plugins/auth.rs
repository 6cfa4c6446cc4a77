//! A plugin that authenticates.
use vstd::prelude::*;
use vstd::string::StringExecFns;
use crate::plugin_architecture::Plugin;

verus! {

/// A way to authenticate.
#[derive(Debug, Clone, Copy, PartialEq, Eq, Structural)]
pub enum AuthType {
    Basic,
    OAuth,
    JWT,
}

/// The words for a way to authenticate.
pub open spec fn auth_words(auth_type: AuthType) -> Seq<char> {
    match auth_type {
        AuthType::Basic => "Basic Authentication"@,
        AuthType::OAuth => "OAuth 2.0"@,
        AuthType::JWT => "JWT Token"@,
    }
}

/// A plugin that authenticates in one way.
pub struct AuthPlugin {
    name: String,
    auth_type: AuthType,
}

impl AuthPlugin {
    /// The way in which the plugin authenticates.
    pub closed spec fn auth_type(&self) -> AuthType {
        self.auth_type
    }

    /// A plugin named `name` that authenticates by `auth_type`.
    pub fn new(name: String, auth_type: AuthType) -> (plugin: AuthPlugin)
        ensures
            plugin.name_text() == name@,
            plugin.auth_type() == auth_type,
    {
        AuthPlugin { name, auth_type }
    }
}

impl Plugin for AuthPlugin {
    closed spec fn name_text(&self) -> Seq<char> {
        self.name@
    }

    open spec fn report(&self, uptime: u64) -> Seq<char> {
        "["@ + self.name_text() + "] Auth plugin using "@ + auth_words(self.auth_type())
    }

    fn name(&self) -> (name: &str) {
        self.name.as_str()
    }

    fn execute(&self) -> (line: String) {
        let words = match self.auth_type {
            AuthType::Basic => "Basic Authentication",
            AuthType::OAuth => "OAuth 2.0",
            AuthType::JWT => "JWT Token",
        };
        let mut line = "[".to_string();
        line.append(self.name.as_str());
        line.append("] Auth plugin using ");
        line.append(words);
        assert(line@ == self.report(0));
        assert(self.may_report(line@));
        line
    }

    fn version(&self) -> (version: &str) {
        "1.0.0"
    }
}

} // verus!
