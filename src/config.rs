//! Process configuration and the application shell that holds it.
use vstd::prelude::*;

verus! {

/// The URL of a Postgres database.
pub open spec fn postgres_url(
    user: Seq<char>,
    password: Seq<char>,
    host: Seq<char>,
    port: Seq<char>,
    name: Seq<char>,
) -> Seq<char> {
    "postgres://"@ + user + ":"@ + password + "@"@ + host + ":"@ + port + "/"@ + name
}

/// Builds `postgres://<user>:<password>@<host>:<port>/<name>`.
pub fn get_database_url(user: &str, password: &str, host: &str, port: &str, name: &str) -> (r:
    String)
    ensures
        r@ == postgres_url(user@, password@, host@, port@, name@),
{
    let mut url = "postgres://".to_owned();
    url.append(user);
    url.append(":");
    url.append(password);
    url.append("@");
    url.append(host);
    url.append(":");
    url.append(port);
    url.append("/");
    url.append(name);
    url
}

/// Where the store lives.
pub struct DatabaseConfig {
    pub url: String,
}

impl DatabaseConfig {
    /// The configuration of the Postgres database described by the parts.
    pub fn new(user: &str, password: &str, host: &str, port: &str, name: &str) -> (r:
        DatabaseConfig)
        ensures
            r.url@ == postgres_url(user@, password@, host@, port@, name@),
    {
        DatabaseConfig { url: get_database_url(user, password, host, port, name) }
    }
}

/// The settings of the process.
pub struct Config {
    pub db: DatabaseConfig,
    pub server_port: u16,
}

/// The application shell: what it needs to start serving.
pub struct App {
    pub config: Config,
}

impl App {
    /// An application with the given settings.
    pub fn new(config: Config) -> (r: App)
        ensures
            r.config == config,
    {
        App { config }
    }
}

} // verus!
