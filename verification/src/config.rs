use vstd::prelude::*;

verus! {

/// Which of the three required configuration values is absent.
#[derive(Clone, Copy, Debug, PartialEq, Eq, Structural)]
pub enum ConfigError {
    MissingHost,
    MissingUser,
    MissingPassword,
}

impl ConfigError {
    /// The name of the environment variable that was not set.
    pub open spec fn variable_name_spec(self) -> Seq<char> {
        match self {
            ConfigError::MissingHost => "POSTGRES_HOST"@,
            ConfigError::MissingUser => "POSTGRES_USER"@,
            ConfigError::MissingPassword => "POSTGRES_PASSWORD"@,
        }
    }

    /// The name of the environment variable that was not set, for diagnostics.
    pub fn variable_name(&self) -> (r: String)
        ensures
            r@ == self.variable_name_spec(),
    {
        match self {
            ConfigError::MissingHost => String::from_str("POSTGRES_HOST"),
            ConfigError::MissingUser => String::from_str("POSTGRES_USER"),
            ConfigError::MissingPassword => String::from_str("POSTGRES_PASSWORD"),
        }
    }
}

/// The database credentials the service connects with.
#[derive(Clone, Debug, PartialEq, Eq)]
pub struct Config {
    pub host: String,
    pub user: String,
    pub password: String,
}

/// The key/value string handed to the database client: fixed keys, the three
/// credentials verbatim, and the fixed database name `panso`.
pub open spec fn connection_spec(host: Seq<char>, user: Seq<char>, password: Seq<char>) -> Seq<char> {
    seq!['h', 'o', 's', 't', '='] + host + seq![' ', 'u', 's', 'e', 'r', '='] + user
        + seq![' ', 'p', 'a', 's', 's', 'w', 'o', 'r', 'd', '='] + password
        + seq![' ', 'd', 'b', 'n', 'a', 'm', 'e', '=', 'p', 'a', 'n', 's', 'o']
}

impl Config {
    /// Validates the three environment values. Succeeds exactly when all
    /// three are present, and otherwise reports the first absent one, in the
    /// order host, user, password.
    pub fn from_env_values(
        host: Option<String>,
        user: Option<String>,
        password: Option<String>,
    ) -> (r: Result<Config, ConfigError>)
        ensures
            match r {
                Ok(c) => {
                    &&& host == Some(c.host)
                    &&& user == Some(c.user)
                    &&& password == Some(c.password)
                },
                Err(e) => match e {
                    ConfigError::MissingHost => host is None,
                    ConfigError::MissingUser => host is Some && user is None,
                    ConfigError::MissingPassword => host is Some && user is Some
                        && password is None,
                },
            },
    {
        let h = match host {
            Some(h) => h,
            None => {
                return Err(ConfigError::MissingHost);
            },
        };
        let u = match user {
            Some(u) => u,
            None => {
                return Err(ConfigError::MissingUser);
            },
        };
        let p = match password {
            Some(p) => p,
            None => {
                return Err(ConfigError::MissingPassword);
            },
        };
        Ok(Config { host: h, user: u, password: p })
    }

    /// Renders the connection string for the database client.
    pub fn connection_string(&self) -> (r: String)
        ensures
            r@ == connection_spec(self.host@, self.user@, self.password@),
    {
        let mut out = String::from_str("host=");
        out.append(self.host.as_str());
        out.append(" user=");
        out.append(self.user.as_str());
        out.append(" password=");
        out.append(self.password.as_str());
        out.append(" dbname=panso");
        proof {
            reveal_strlit("host=");
            reveal_strlit(" user=");
            reveal_strlit(" password=");
            reveal_strlit(" dbname=panso");
            assert(out@ =~= connection_spec(self.host@, self.user@, self.password@));
        }
        out
    }
}

} // verus!
