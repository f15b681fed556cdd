//! The configuration of the exchange: where it listens and what it connects to.

use vstd::prelude::*;
use vstd::string::StringExecFns;
use crate::text::{decimal_text, decimal_up_to, parse_decimal, push_decimal};

verus! {

/// The port that the web server listens on where none is configured.
pub const WEBSERVER_ADDRESS_DEFAULT_PORT: u16 = 3000;

/// The port of the redis server where none is configured.
pub const REDIS_PORT_DEFAULT: u16 = 6379;

/// `toml::map::Map`, the table type of the `toml` crate. Nothing of what is
/// inside is visible here but through `table_entries`.
#[verifier::external_type_specification]
#[verifier::external_body]
#[verifier::reject_recursive_types(K)]
#[verifier::reject_recursive_types(V)]
pub struct ExTomlMap<K, V>(toml::map::Map<K, V>);

/// `toml::Value`, the value type of the `toml` crate, carried opaquely.
#[verifier::external_type_specification]
#[verifier::external_body]
pub struct ExTomlValue(toml::Value);

/// The value of one setting, as it goes into a TOML table.
#[derive(Debug)]
pub enum Setting {
    Text(String),
    Number(i64),
}

/// A setting's value as a value.
pub enum SettingView {
    Text(Seq<char>),
    Number(int),
}

impl View for Setting {
    type V = SettingView;

    open spec fn view(&self) -> SettingView {
        match self {
            Setting::Text(s) => SettingView::Text(s@),
            Setting::Number(n) => SettingView::Number(*n as int),
        }
    }
}

/// A TOML table.
pub type Table = toml::map::Map<String, toml::Value>;

/// What a TOML table holds, by key: a TOML string as `Text`, a TOML integer
/// as `Number`.
pub uninterp spec fn table_entries(table: Table) -> Map<
    Seq<char>,
    SettingView,
>;

/// The entries of an empty table.
pub open spec fn no_entries() -> Map<Seq<char>, SettingView> {
    Map::empty()
}

/// `toml::map::Map::new`: a table that holds nothing.
#[verifier::external_body]
fn table_new() -> (table: Table)
    ensures
        table_entries(table) == no_entries(),
{
    toml::map::Map::new()
}

/// `toml::map::Map::insert` of what `toml::Value::try_from` makes of the
/// setting: a TOML string of a text, a TOML integer of a number, neither of
/// which can fail. The table then holds the value under `key`, in place of
/// what it held there, and everything else as before.
#[verifier::external_body]
fn table_insert(table: &mut Table, key: &str, value: &Setting)
    ensures
        table_entries(*final(table)) == table_entries(*old(table)).insert(key@, value@),
{
    let converted = match value {
        Setting::Text(s) => toml::Value::try_from(s.as_str()),
        Setting::Number(n) => toml::Value::try_from(*n),
    };
    if let Ok(v) = converted {
        table.insert(key.to_owned(), v);
    }
}

/// The configuration. The web server's address is held as text, in the
/// form host, colon, port.
#[derive(Debug)]
pub struct Config {
    webserver_address: String,
    redis_host: String,
    redis_port: u16,
    database_url: String,
    config_file_path: Option<String>,
}

/// A configuration as a value.
pub struct ConfigView {
    pub webserver_address: Seq<char>,
    pub redis_host: Seq<char>,
    pub redis_port: u16,
    pub database_url: Seq<char>,
    pub config_file_path: Option<Seq<char>>,
}

impl View for Config {
    type V = ConfigView;

    closed spec fn view(&self) -> ConfigView {
        ConfigView {
            webserver_address: self.webserver_address@,
            redis_host: self.redis_host@,
            redis_port: self.redis_port,
            database_url: self.database_url@,
            config_file_path: match self.config_file_path {
                Some(p) => Some(p@),
                None => None,
            },
        }
    }
}

/// `m` with `value` under `key` if `differs`, else `m`.
pub open spec fn noted(
    m: Map<Seq<char>, SettingView>,
    differs: bool,
    key: Seq<char>,
    value: SettingView,
) -> Map<Seq<char>, SettingView> {
    if differs {
        m.insert(key, value)
    } else {
        m
    }
}

impl ConfigView {
    /// The URL of the redis server.
    pub open spec fn redis_url(self) -> Seq<char> {
        "redis://"@ + self.redis_host + ":"@ + decimal_text(self.redis_port as nat)
    }

    /// The settings in which this configuration differs from `other`, each
    /// with the value that it has here. The path of the configuration file
    /// is no setting.
    pub open spec fn diff(self, other: ConfigView) -> Map<Seq<char>, SettingView> {
        let m0 = no_entries();
        let m1 = noted(
            m0,
            self.webserver_address != other.webserver_address,
            "webserver_address"@,
            SettingView::Text(self.webserver_address),
        );
        let m2 = noted(
            m1,
            self.redis_host != other.redis_host,
            "redis_host"@,
            SettingView::Text(self.redis_host),
        );
        let m3 = noted(
            m2,
            self.redis_port != other.redis_port,
            "redis_port"@,
            SettingView::Number(self.redis_port as int),
        );
        noted(
            m3,
            self.database_url != other.database_url,
            "database_url"@,
            SettingView::Text(self.database_url),
        )
    }
}

impl Config {
    /// A configuration with the given settings.
    pub fn new(
        webserver_address: String,
        redis_host: String,
        redis_port: u16,
        database_url: String,
        config_file_path: Option<String>,
    ) -> (c: Config)
        ensures
            c@ == (ConfigView {
                webserver_address: webserver_address@,
                redis_host: redis_host@,
                redis_port,
                database_url: database_url@,
                config_file_path: match config_file_path {
                    Some(p) => Some(p@),
                    None => None,
                },
            }),
    {
        Config { webserver_address, redis_host, redis_port, database_url, config_file_path }
    }

    /// The settings in which this configuration differs from `other`, as a
    /// TOML table.
    pub fn diff(&self, other: &Config) -> (table: Table)
        ensures
            table_entries(table) == self@.diff(other@),
    {
        let mut table = table_new();
        if !(self.webserver_address == other.webserver_address) {
            table_insert(
                &mut table,
                "webserver_address",
                &Setting::Text(self.webserver_address.clone()),
            );
        }
        if !(self.redis_host == other.redis_host) {
            table_insert(&mut table, "redis_host", &Setting::Text(self.redis_host.clone()));
        }
        if self.redis_port != other.redis_port {
            table_insert(&mut table, "redis_port", &Setting::Number(self.redis_port as i64));
        }
        if !(self.database_url == other.database_url) {
            table_insert(&mut table, "database_url", &Setting::Text(self.database_url.clone()));
        }
        table
    }

    /// The address that the web server listens on.
    pub fn webserver_address(&self) -> (r: &str)
        ensures
            r@ == self@.webserver_address,
    {
        self.webserver_address.as_str()
    }

    /// The host of the redis server.
    pub fn redis_host(&self) -> (r: &str)
        ensures
            r@ == self@.redis_host,
    {
        self.redis_host.as_str()
    }

    /// The port of the redis server.
    pub fn redis_port(&self) -> (r: u16)
        ensures
            r == self@.redis_port,
    {
        self.redis_port
    }

    /// The URL of the redis server: `redis://`, the host, a colon, the port.
    pub fn redis_url(&self) -> (r: String)
        ensures
            r@ == self@.redis_url(),
    {
        let mut out = "redis://".to_owned();
        out.append(self.redis_host.as_str());
        out.append(":");
        push_decimal(&mut out, self.redis_port as u64);
        out
    }

    /// The URL of the database.
    pub fn database_url(&self) -> (r: String)
        ensures
            r@ == self@.database_url,
    {
        self.database_url.clone()
    }

    /// The path of the file that the configuration was read from, if any.
    pub fn config_file_path(&self) -> (r: Option<&str>)
        ensures
            match r {
                Some(p) => self@.config_file_path == Some(p@),
                None => self@.config_file_path is None,
            },
    {
        match &self.config_file_path {
            Some(p) => Some(p.as_str()),
            None => None,
        }
    }
}

/// The web server's address: the configured one if there is one, else every
/// interface on the default port.
pub fn webserver_address_or_default(configured: Option<String>) -> (r: String)
    ensures
        r@ == match configured {
            Some(a) => a@,
            None => "0.0.0.0:3000"@,
        },
{
    match configured {
        Some(a) => a,
        None => "0.0.0.0:3000".to_owned(),
    }
}

/// The host of the redis server: the configured one if there is one, else
/// the local host.
pub fn redis_host_or_default(configured: Option<String>) -> (r: String)
    ensures
        r@ == match configured {
            Some(h) => h@,
            None => "127.0.0.1"@,
        },
{
    match configured {
        Some(h) => h,
        None => "127.0.0.1".to_owned(),
    }
}

/// The port that a setting names, or the default where there is no setting
/// or it does not write a port in decimal.
pub open spec fn port_or(configured: Option<Seq<char>>, default: u16) -> u16 {
    match configured {
        Some(s) => match decimal_up_to(s, 65535) {
            Some(p) => p as u16,
            None => default,
        },
        None => default,
    }
}

/// The port of the redis server: the configured one if it is a port, else 6379.
pub fn redis_port_or_default(configured: Option<&str>) -> (r: u16)
    ensures
        r == port_or(
            match configured {
                Some(s) => Some(s@),
                None => None,
            },
            REDIS_PORT_DEFAULT,
        ),
{
    match configured {
        Some(s) => match parse_decimal(s, 65535) {
            Some(p) => p as u16,
            None => REDIS_PORT_DEFAULT,
        },
        None => REDIS_PORT_DEFAULT,
    }
}

} // verus!
