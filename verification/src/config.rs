//! Service configuration: the environment kind, cookie policy, allowed
//! origins, and the assembly of a configuration from environment variables
//! or a configuration file with environment overrides.

use vstd::prelude::*;
use vstd::string::*;
use vstd::utf8::encode_utf8;
use crate::bytes::bytes_eq;
use crate::errors::AppError;
use crate::decimal::spec_parse_u64;

verus! {

/// The runtime environment.
#[derive(Clone, Copy, Debug, PartialEq, Eq, Structural)]
pub enum Environment {
    Development,
    Production,
}

impl Default for Environment {
    /// Absent configuration means development.
    fn default() -> (r: Self)
        ensures
            r == Environment::Development,
    {
        Environment::Development
    }
}

/// An ASCII byte lowered: letters fold to lowercase, all else unchanged.
pub open spec fn lower_b(b: u8) -> u8 {
    if 65 <= b <= 90 {
        (b + 32) as u8
    } else {
        b
    }
}

/// A byte string lowered bytewise.
pub open spec fn lower_bytes(s: Seq<u8>) -> Seq<u8> {
    Seq::new(s.len(), |i: int| lower_b(s[i]))
}

/// The bytes of `development`.
pub open spec fn lit_env_development() -> Seq<u8> {
    seq![100, 101, 118, 101, 108, 111, 112, 109, 101, 110, 116]
}

/// The bytes of `dev`.
pub open spec fn lit_env_dev() -> Seq<u8> {
    seq![100, 101, 118]
}

/// The bytes of `production`.
pub open spec fn lit_env_production() -> Seq<u8> {
    seq![112, 114, 111, 100, 117, 99, 116, 105, 111, 110]
}

/// The bytes of `prod`.
pub open spec fn lit_env_prod() -> Seq<u8> {
    seq![112, 114, 111, 100]
}

/// The environment a name denotes, matched case-insensitively:
/// `development`/`dev` and `production`/`prod`.
pub open spec fn spec_env_of(s: Seq<u8>) -> Option<Environment> {
    let l = lower_bytes(s);
    if l == lit_env_development() || l == lit_env_dev() {
        Some(Environment::Development)
    } else if l == lit_env_production() || l == lit_env_prod() {
        Some(Environment::Production)
    } else {
        None
    }
}

/// Parses an environment name, case-insensitively.
pub fn parse_environment(s: &str) -> (r: Option<Environment>)
    ensures
        r == spec_env_of(s.spec_bytes()),
{
    let b = s.as_bytes();
    let n = b.len();
    let mut low: Vec<u8> = Vec::new();
    let mut i: usize = 0;
    while i < n
        invariant
            i <= n == b@.len(),
            b@ == s.spec_bytes(),
            low@.len() == i,
            forall|k: int| 0 <= k < i ==> low@[k] == lower_b(#[trigger] b@[k]),
        decreases n - i,
    {
        let c = b[i];
        if 65 <= c && c <= 90 {
            low.push(c + 32);
        } else {
            low.push(c);
        }
        i += 1;
    }
    proof {
        assert(low@ =~= lower_bytes(s.spec_bytes()));
    }
    let mut lit: Vec<u8> = Vec::new();
    lit.push(100);
    lit.push(101);
    lit.push(118);
    lit.push(101);
    lit.push(108);
    lit.push(111);
    lit.push(112);
    lit.push(109);
    lit.push(101);
    lit.push(110);
    lit.push(116);
    proof {
        assert(lit@ =~= lit_env_development());
    }
    if bytes_eq(low.as_slice(), lit.as_slice()) {
        return Some(Environment::Development);
    }
    let mut lit: Vec<u8> = Vec::new();
    lit.push(100);
    lit.push(101);
    lit.push(118);
    proof {
        assert(lit@ =~= lit_env_dev());
    }
    if bytes_eq(low.as_slice(), lit.as_slice()) {
        return Some(Environment::Development);
    }
    let mut lit: Vec<u8> = Vec::new();
    lit.push(112);
    lit.push(114);
    lit.push(111);
    lit.push(100);
    lit.push(117);
    lit.push(99);
    lit.push(116);
    lit.push(105);
    lit.push(111);
    lit.push(110);
    proof {
        assert(lit@ =~= lit_env_production());
    }
    if bytes_eq(low.as_slice(), lit.as_slice()) {
        return Some(Environment::Production);
    }
    let mut lit: Vec<u8> = Vec::new();
    lit.push(112);
    lit.push(114);
    lit.push(111);
    lit.push(100);
    proof {
        assert(lit@ =~= lit_env_prod());
    }
    if bytes_eq(low.as_slice(), lit.as_slice()) {
        return Some(Environment::Production);
    }
    None
}

/// The SameSite policy a cookie carries.
#[derive(Clone, Copy, Debug, PartialEq, Eq, Structural)]
pub enum SameSitePolicy {
    /// Sent cross-site (`SameSite=None`); requires the Secure flag.
    CrossSite,
    /// Sent on top-level navigation only (`SameSite=Lax`).
    Lax,
}

/// The cookie flags derived from the environment.
#[derive(Clone, Copy, Debug, PartialEq, Eq, Structural)]
pub struct CookieConfig {
    pub secure: bool,
    pub same_site: SameSitePolicy,
    pub http_only: bool,
}

impl CookieConfig {
    /// Production cookies are cross-site and secure; development cookies
    /// are lax and not secure.  Both are HTTP-only.
    pub fn from_environment(env: &Environment) -> (r: CookieConfig)
        ensures
            r == (match env {
                Environment::Production => CookieConfig {
                    secure: true,
                    same_site: SameSitePolicy::CrossSite,
                    http_only: true,
                },
                Environment::Development => CookieConfig {
                    secure: false,
                    same_site: SameSitePolicy::Lax,
                    http_only: true,
                },
            }),
    {
        match env {
            Environment::Production => CookieConfig {
                secure: true,
                same_site: SameSitePolicy::CrossSite,
                http_only: true,
            },
            Environment::Development => CookieConfig {
                secure: false,
                same_site: SameSitePolicy::Lax,
                http_only: true,
            },
        }
    }
}

/// PostgreSQL connection settings.
pub struct PostgresConfig {
    pub connection_url: String,
    pub db_name: String,
}

/// MongoDB connection settings.
pub struct MongoDBConfig {
    pub connection_uri: String,
    pub db_name: String,
}

/// Both database backends.
pub struct DatabaseConfig {
    pub postgres: PostgresConfig,
    pub mongodb: MongoDBConfig,
}

/// The HTTP server settings.
pub struct ServerConfig {
    pub host: String,
    pub port: u16,
    pub env: Environment,
    pub allowed_origins: Vec<String>,
}

impl ServerConfig {
    /// The cookie flags for this environment.
    pub fn get_cookie_config(&self) -> (r: CookieConfig)
        ensures
            r == (match self.env {
                Environment::Production => CookieConfig {
                    secure: true,
                    same_site: SameSitePolicy::CrossSite,
                    http_only: true,
                },
                Environment::Development => CookieConfig {
                    secure: false,
                    same_site: SameSitePolicy::Lax,
                    http_only: true,
                },
            }),
    {
        CookieConfig::from_environment(&self.env)
    }

    /// The allowed CORS origins.  Production requires an explicit non-empty
    /// list and uses exactly it; development allows the caller-supplied
    /// local origins followed by any configured extras.
    pub fn get_allowed_origins(&self, local_origins: Vec<String>) -> (r: Result<
        Vec<String>,
        AppError,
    >)
        ensures
            match self.env {
                Environment::Production => {
                    &&& (self.allowed_origins@.len() == 0 <==> (r matches Err(e) && e
                        is ConfigError))
                    &&& (r matches Ok(v) ==> v@.len() == self.allowed_origins@.len() && forall|
                        i: int,
                    |
                        0 <= i < v@.len() ==> #[trigger] v@[i]@ == self.allowed_origins@[i]@)
                },
                Environment::Development => r matches Ok(v) && v@.len() == local_origins@.len()
                    + self.allowed_origins@.len() && (forall|i: int|
                    0 <= i < local_origins@.len() ==> #[trigger] v@[i]@ == local_origins@[i]@)
                    && (forall|i: int|
                    0 <= i < self.allowed_origins@.len() ==> #[trigger] v@[local_origins@.len()
                        + i]@ == self.allowed_origins@[i]@),
            },
    {
        match self.env {
            Environment::Production => {
                if self.allowed_origins.len() == 0 {
                    return Err(
                        AppError::ConfigError(
                            "Production requires explicit allowed origins".to_owned(),
                        ),
                    );
                }
                let mut out: Vec<String> = Vec::new();
                let n = self.allowed_origins.len();
                let mut i: usize = 0;
                while i < n
                    invariant
                        i <= n == self.allowed_origins@.len(),
                        out@.len() == i,
                        forall|k: int|
                            0 <= k < i ==> #[trigger] out@[k]@ == self.allowed_origins@[k]@,
                    decreases n - i,
                {
                    out.push(self.allowed_origins[i].as_str().to_owned());
                    i += 1;
                }
                Ok(out)
            },
            Environment::Development => {
                let mut out = local_origins;
                let ghost base = out@;
                let n = self.allowed_origins.len();
                let mut i: usize = 0;
                while i < n
                    invariant
                        i <= n == self.allowed_origins@.len(),
                        out@.len() == base.len() + i,
                        forall|k: int| 0 <= k < base.len() ==> #[trigger] out@[k] == base[k],
                        forall|k: int|
                            0 <= k < i ==> #[trigger] out@[base.len() + k]@
                                == self.allowed_origins@[k]@,
                    decreases n - i,
                {
                    out.push(self.allowed_origins[i].as_str().to_owned());
                    i += 1;
                }
                Ok(out)
            },
        }
    }
}

/// Logging settings.
pub struct LoggingConfig {
    pub level: String,
}

/// The signing secret.
pub struct JwtConfig {
    pub secret: String,
}

/// SMTP transport settings.
pub struct EmailConfig {
    pub smtp_host: String,
    pub smtp_port: u16,
    pub smtp_username: String,
    pub smtp_password: String,
    pub from_email: String,
    pub from_name: String,
}

/// The LLM integration key.
pub struct GeminiConfig {
    pub api_key: String,
}

/// The whole service configuration.
pub struct Config {
    pub database: DatabaseConfig,
    pub server: ServerConfig,
    pub logging: LoggingConfig,
    pub jwt: JwtConfig,
    pub email: EmailConfig,
    pub gemini: GeminiConfig,
}

/// The environment variables the configuration reads, each as found.
pub struct ConfigEnv {
    pub postgres_connection_url: Option<String>,
    pub postgres_db_name: Option<String>,
    pub mongodb_connection_uri: Option<String>,
    pub mongodb_db_name: Option<String>,
    pub server_host: Option<String>,
    pub server_port: Option<String>,
    pub environment: Option<String>,
    pub allowed_origins: Option<String>,
    pub log_level: Option<String>,
    pub jwt_secret: Option<String>,
    pub smtp_host: Option<String>,
    pub smtp_port: Option<String>,
    pub smtp_username: Option<String>,
    pub smtp_password: Option<String>,
    pub from_email: Option<String>,
    pub from_name: Option<String>,
    pub gemini_api_key: Option<String>,
}

/// The port a variable denotes: a full decimal within `u16`, else the
/// given default.
pub open spec fn spec_port_of(s: Option<Seq<char>>, default: u16) -> u16 {
    match s {
        None => default,
        Some(t) => match spec_parse_u64(encode_utf8(t), 0) {
            Some(v) => if v.1 == encode_utf8(t).len() && v.0 <= 65535 {
                v.0 as u16
            } else {
                default
            },
            None => default,
        },
    }
}

/// Parses a port variable, with a default for absent or malformed values.
pub fn parse_port(s: &Option<String>, default: u16) -> (r: u16)
    ensures
        r == spec_port_of(
            match s {
                Some(t) => Some(t@),
                None => None,
            },
            default,
        ),
{
    match s {
        None => default,
        Some(t) => {
            let b = t.as_str().as_bytes();
            match crate::decimal::parse_u64_dec(b, 0) {
                Some((v, e)) => {
                    if e == b.len() && v <= 65535 {
                        v as u16
                    } else {
                        default
                    }
                },
                None => default,
            }
        },
    }
}

fn required(v: Option<String>, what: &str) -> (r: Result<String, AppError>)
    ensures
        match v {
            Some(s) => r matches Ok(o) && o@ == s@,
            None => r matches Err(e) && e is ConfigError,
        },
{
    match v {
        Some(s) => Ok(s),
        None => Err(AppError::ConfigError(what.to_owned())),
    }
}

fn or_default(v: Option<String>, default: &str) -> (r: String)
    ensures
        match v {
            Some(s) => r@ == s@,
            None => r@ == default@,
        },
{
    match v {
        Some(s) => s,
        None => default.to_owned(),
    }
}

impl Config {
    /// Builds the configuration the way the loader resolves it: when a
    /// PostgreSQL URL stands in the environment, everything comes from the
    /// environment, with the MongoDB URI, signing secret and SMTP host,
    /// username and password required and the rest defaulted; otherwise a
    /// configuration file is required and a handful of variables override
    /// its values.
    pub fn from_sources(env: ConfigEnv, file: Option<Config>) -> (r: Result<Config, AppError>)
        ensures
            env.postgres_connection_url is Some ==> (match r {
                Err(e) => e is ConfigError && (env.mongodb_connection_uri is None
                    || env.jwt_secret is None || env.smtp_host is None || env.smtp_username
                    is None || env.smtp_password is None),
                Ok(c) => {
                    &&& env.mongodb_connection_uri is Some && env.jwt_secret is Some
                        && env.smtp_host is Some && env.smtp_username is Some
                        && env.smtp_password is Some
                    &&& c.database.postgres.connection_url@
                        == env.postgres_connection_url->Some_0@
                    &&& c.database.mongodb.connection_uri@ == env.mongodb_connection_uri->Some_0@
                    &&& c.jwt.secret@ == env.jwt_secret->Some_0@
                    &&& c.email.smtp_host@ == env.smtp_host->Some_0@
                    &&& c.email.smtp_username@ == env.smtp_username->Some_0@
                    &&& c.email.smtp_password@ == env.smtp_password->Some_0@
                    &&& c.server.port == spec_port_of(
                        match env.server_port {
                            Some(ref t) => Some(t@),
                            None => None,
                        },
                        5050,
                    )
                    &&& c.email.smtp_port == spec_port_of(
                        match env.smtp_port {
                            Some(ref t) => Some(t@),
                            None => None,
                        },
                        587,
                    )
                    &&& c.server.env == (match env.environment {
                        Some(ref s) => match spec_env_of(encode_utf8(s@)) {
                            Some(e) => e,
                            None => Environment::Development,
                        },
                        None => Environment::Development,
                    })
                    &&& (match env.from_email {
                        Some(ref f) => c.email.from_email@ == f@,
                        None => c.email.from_email@ == env.smtp_username->Some_0@,
                    })
                },
            }),
            env.postgres_connection_url is None && file is None ==> (r matches Err(e) && e
                is ConfigError),
            env.postgres_connection_url is None && file is Some ==> (r matches Ok(c) && ({
                let base = file->Some_0;
                &&& (match env.jwt_secret {
                    Some(ref s) => c.jwt.secret@ == s@,
                    None => c.jwt.secret@ == base.jwt.secret@,
                })
                &&& (match env.smtp_host {
                    Some(ref s) => c.email.smtp_host@ == s@,
                    None => c.email.smtp_host@ == base.email.smtp_host@,
                })
                &&& (match env.smtp_username {
                    Some(ref s) => c.email.smtp_username@ == s@,
                    None => c.email.smtp_username@ == base.email.smtp_username@,
                })
                &&& (match env.smtp_password {
                    Some(ref s) => c.email.smtp_password@ == s@,
                    None => c.email.smtp_password@ == base.email.smtp_password@,
                })
                &&& (match env.gemini_api_key {
                    Some(ref s) => c.gemini.api_key@ == s@,
                    None => c.gemini.api_key@ == base.gemini.api_key@,
                })
                &&& c.database.postgres.connection_url@
                    == base.database.postgres.connection_url@
                &&& c.server.env == base.server.env
            })),
    {
        if let Some(postgres_url) = env.postgres_connection_url {
            let mongodb_uri = match required(
                env.mongodb_connection_uri,
                "MONGODB_CONNECTION_URI must be set when using environment variables",
            ) {
                Ok(v) => v,
                Err(e) => {
                    return Err(e);
                },
            };
            let jwt_secret = match required(
                env.jwt_secret,
                "JWT_SECRET must be set when using environment variables",
            ) {
                Ok(v) => v,
                Err(e) => {
                    return Err(e);
                },
            };
            let smtp_host = match required(
                env.smtp_host,
                "SMTP_HOST must be set when using environment variables",
            ) {
                Ok(v) => v,
                Err(e) => {
                    return Err(e);
                },
            };
            let smtp_username = match required(
                env.smtp_username,
                "SMTP_USERNAME must be set when using environment variables",
            ) {
                Ok(v) => v,
                Err(e) => {
                    return Err(e);
                },
            };
            let smtp_password = match required(
                env.smtp_password,
                "SMTP_PASSWORD must be set when using environment variables",
            ) {
                Ok(v) => v,
                Err(e) => {
                    return Err(e);
                },
            };
            let environment = match env.environment {
                Some(ref s) => match parse_environment(s.as_str()) {
                    Some(e) => e,
                    None => Environment::Development,
                },
                None => Environment::Development,
            };
            let allowed_origins = match env.allowed_origins {
                Some(ref s) => crate::client_ip::split_commas_trimmed(s.as_str()),
                None => Vec::new(),
            };
            let from_email = match env.from_email {
                Some(f) => f,
                None => smtp_username.as_str().to_owned(),
            };
            let server_port = parse_port(&env.server_port, 5050);
            let smtp_port = parse_port(&env.smtp_port, 587);
            Ok(
                Config {
                    database: DatabaseConfig {
                        postgres: PostgresConfig {
                            connection_url: postgres_url,
                            db_name: or_default(env.postgres_db_name, "mimo_db"),
                        },
                        mongodb: MongoDBConfig {
                            connection_uri: mongodb_uri,
                            db_name: or_default(env.mongodb_db_name, "mimo_db"),
                        },
                    },
                    server: ServerConfig {
                        host: or_default(env.server_host, "0.0.0.0"),
                        port: server_port,
                        env: environment,
                        allowed_origins,
                    },
                    logging: LoggingConfig { level: or_default(env.log_level, "info") },
                    jwt: JwtConfig { secret: jwt_secret },
                    email: EmailConfig {
                        smtp_host,
                        smtp_port,
                        smtp_username,
                        smtp_password,
                        from_email,
                        from_name: or_default(env.from_name, "Mimo Server"),
                    },
                    gemini: GeminiConfig { api_key: or_default(env.gemini_api_key, "") },
                },
            )
        } else {
            let mut config = match file {
                Some(c) => c,
                None => {
                    return Err(
                        AppError::ConfigError(
                            "Use environment variables or provide a configuration file".to_owned(),
                        ),
                    );
                },
            };
            if let Some(secret) = env.jwt_secret {
                config.jwt.secret = secret;
            }
            if let Some(host) = env.smtp_host {
                config.email.smtp_host = host;
            }
            if let Some(ref port) = env.smtp_port {
                let b = port.as_str().as_bytes();
                match crate::decimal::parse_u64_dec(b, 0) {
                    Some((v, e)) => {
                        if e == b.len() && v <= 65535 {
                            config.email.smtp_port = v as u16;
                        }
                    },
                    None => {},
                }
            }
            if let Some(username) = env.smtp_username {
                config.email.smtp_username = username;
            }
            if let Some(password) = env.smtp_password {
                config.email.smtp_password = password;
            }
            if let Some(from_email) = env.from_email {
                config.email.from_email = from_email;
            }
            if let Some(from_name) = env.from_name {
                config.email.from_name = from_name;
            }
            if let Some(api_key) = env.gemini_api_key {
                config.gemini.api_key = api_key;
            }
            Ok(config)
        }
    }
}

} // verus!
