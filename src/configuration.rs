use vstd::prelude::*;
use crate::config_file::{config_entries, parse_config};
use crate::form::{key_count, lookup, pairs_view, value_of, FieldView};

verus! {

/// The ASCII digit for a value below ten.
pub open spec fn digit_char(d: nat) -> char
    recommends
        d < 10,
{
    if d == 0 {
        '0'
    } else if d == 1 {
        '1'
    } else if d == 2 {
        '2'
    } else if d == 3 {
        '3'
    } else if d == 4 {
        '4'
    } else if d == 5 {
        '5'
    } else if d == 6 {
        '6'
    } else if d == 7 {
        '7'
    } else if d == 8 {
        '8'
    } else {
        '9'
    }
}

/// The decimal notation of `n`, without sign or leading zeros.
pub open spec fn decimal(n: nat) -> Seq<char>
    decreases n,
{
    if n < 10 {
        seq![digit_char(n)]
    } else {
        decimal(n / 10).push(digit_char(n % 10))
    }
}

fn digit_str(d: u16) -> (r: &'static str)
    requires
        d < 10,
    ensures
        r@ == seq![digit_char(d as nat)],
{
    proof {
        reveal_strlit("0");
        reveal_strlit("1");
        reveal_strlit("2");
        reveal_strlit("3");
        reveal_strlit("4");
        reveal_strlit("5");
        reveal_strlit("6");
        reveal_strlit("7");
        reveal_strlit("8");
        reveal_strlit("9");
    }
    match d {
        0 => "0",
        1 => "1",
        2 => "2",
        3 => "3",
        4 => "4",
        5 => "5",
        6 => "6",
        7 => "7",
        8 => "8",
        _ => "9",
    }
}

/// Writes `n` in decimal.
pub fn decimal_string(n: u16) -> (r: String)
    ensures
        r@ == decimal(n as nat),
    decreases n,
{
    if n < 10 {
        String::from_str(digit_str(n))
    } else {
        let mut s = decimal_string(n / 10);
        s.append(digit_str(n % 10));
        s
    }
}

/// Where the relational store is and how to log in to it.
pub struct DatabaseSettings {
    pub username: String,
    pub password: String,
    pub port: u16,
    pub host: String,
    pub database_name: String,
}

/// The whole configuration of the service.
pub struct Settings {
    pub database: DatabaseSettings,
    pub application_port: u16,
}

/// `postgres://<username>:<password>@<host>:<port>`: the server, with no database selected.
pub open spec fn server_url(
    username: Seq<char>,
    password: Seq<char>,
    host: Seq<char>,
    port: u16,
) -> Seq<char> {
    seq!['p', 'o', 's', 't', 'g', 'r', 'e', 's', ':', '/', '/'] + username + seq![':'] + password
        + seq!['@'] + host + seq![':'] + decimal(port as nat)
}

/// `127.0.0.1:<port>`: the loopback address and a port.
pub open spec fn loopback_address(port: u16) -> Seq<char> {
    seq!['1', '2', '7', '.', '0', '.', '0', '.', '1', ':'] + decimal(port as nat)
}

/// Writes the loopback address with the given port.
pub fn loopback_address_string(port: u16) -> (r: String)
    ensures
        r@ == loopback_address(port),
{
    proof {
        reveal_strlit("127.0.0.1:");
    }
    let mut s = String::from_str("127.0.0.1:");
    let p = decimal_string(port);
    s.append(p.as_str());
    s
}

impl Settings {
    /// The address the service listens on: loopback, at the configured port.
    pub fn address(&self) -> (r: String)
        ensures
            r@ == loopback_address(self.application_port),
    {
        loopback_address_string(self.application_port)
    }
}

impl DatabaseSettings {
    /// The same settings, pointed at another database of the same server.
    pub fn with_database_name(self, database_name: String) -> (r: DatabaseSettings)
        ensures
            r.username@ == self.username@,
            r.password@ == self.password@,
            r.host@ == self.host@,
            r.port == self.port,
            r.database_name@ == database_name@,
    {
        DatabaseSettings { database_name, ..self }
    }

    pub open spec fn spec_connection_string_without_db(&self) -> Seq<char> {
        server_url(self.username@, self.password@, self.host@, self.port)
    }

    pub open spec fn spec_connection_string(&self) -> Seq<char> {
        self.spec_connection_string_without_db() + seq!['/'] + self.database_name@
    }

    /// The address of the server alone, used to create new databases.
    pub fn connection_string_without_db(&self) -> (r: String)
        ensures
            r@ == self.spec_connection_string_without_db(),
    {
        proof {
            reveal_strlit("postgres://");
            reveal_strlit(":");
            reveal_strlit("@");
        }
        let mut s = String::from_str("postgres://");
        s.append(self.username.as_str());
        s.append(":");
        s.append(self.password.as_str());
        s.append("@");
        s.append(self.host.as_str());
        s.append(":");
        let port = decimal_string(self.port);
        s.append(port.as_str());
        assert(s@ =~= self.spec_connection_string_without_db());
        s
    }

    /// The address of the configured database on the server.
    pub fn connection_string(&self) -> (r: String)
        ensures
            r@ == self.spec_connection_string(),
    {
        proof {
            reveal_strlit("/");
        }
        let mut s = self.connection_string_without_db();
        s.append("/");
        s.append(self.database_name.as_str());
        s
    }
}

pub open spec fn is_digit(c: char) -> bool {
    '0' <= c && c <= '9'
}

/// The number that a string of decimal digits denotes.
pub open spec fn digits_value(s: Seq<char>) -> int
    decreases s.len(),
{
    if s.len() == 0 {
        0
    } else {
        digits_value(s.drop_last()) * 10 + (s.last() as int - '0' as int)
    }
}

/// A port is written as one or more decimal digits, and must fit in 16 bits.
pub open spec fn spec_parse_port(s: Seq<char>) -> Option<u16> {
    if s.len() > 0 && (forall|i: int| 0 <= i < s.len() ==> is_digit(#[trigger] s[i]))
        && digits_value(s) <= u16::MAX {
        Some(digits_value(s) as u16)
    } else {
        None
    }
}

/// Reads a port number written in decimal.
pub fn parse_port(s: &str) -> (r: Option<u16>)
    ensures
        r == spec_parse_port(s@),
{
    let n = s.unicode_len();
    if n == 0 {
        return None;
    }
    let mut value: u32 = 0;
    let mut i: usize = 0;
    while i < n
        invariant
            n == s@.len(),
            i <= n,
            value as int == digits_value(s@.take(i as int)),
            value <= u16::MAX,
            forall|j: int| 0 <= j < i ==> is_digit(#[trigger] s@[j]),
        decreases n - i,
    {
        let c = s.get_char(i);
        proof {
            assert(s@.take(i as int + 1).drop_last() =~= s@.take(i as int));
        }
        if !('0' <= c && c <= '9') {
            return None;
        }
        let next = value * 10 + (c as u32 - '0' as u32);
        if next > 65535 {
            proof {
                assert(s@.take(n as int) =~= s@);
                if forall|j: int| 0 <= j < n ==> is_digit(#[trigger] s@[j]) {
                    lemma_digits_grow(s@, i as int + 1, n as int);
                }
            }
            return None;
        }
        value = next;
        i = i + 1;
    }
    proof {
        assert(s@.take(n as int) =~= s@);
    }
    Some(value as u16)
}

/// Appending digits never makes a value smaller.
proof fn lemma_digits_grow(s: Seq<char>, i: int, k: int)
    requires
        0 <= i <= k <= s.len(),
        forall|j: int| 0 <= j < s.len() ==> is_digit(#[trigger] s[j]),
        digits_value(s.take(i)) >= 0,
    ensures
        digits_value(s.take(i)) <= digits_value(s.take(k)),
    decreases k - i,
{
    if i < k {
        lemma_digits_grow(s, i, k - 1);
        assert(s.take(k).drop_last() =~= s.take(k - 1));
        assert(is_digit(s[k - 1]));
    }
}

/// One of the settings that the configuration holds.
#[derive(Clone, Copy, Debug, PartialEq, Eq, Structural)]
pub enum SettingKey {
    ApplicationPort,
    DatabaseHost,
    DatabasePort,
    DatabaseUsername,
    DatabasePassword,
    DatabaseName,
}

/// Why a configuration is refused.
#[derive(Clone, Copy, Debug, PartialEq, Eq, Structural)]
pub enum ConfigError {
    Missing(SettingKey),
    NotAPort(SettingKey),
}

/// The dotted path of a setting in the configuration file.
pub open spec fn setting_path(k: SettingKey) -> Seq<char> {
    match k {
        SettingKey::ApplicationPort => "application_port"@,
        SettingKey::DatabaseHost => "database.host"@,
        SettingKey::DatabasePort => "database.port"@,
        SettingKey::DatabaseUsername => "database.username"@,
        SettingKey::DatabasePassword => "database.password"@,
        SettingKey::DatabaseName => "database.database_name"@,
    }
}

/// The mathematical content of `Settings`.
pub struct SettingsModel {
    pub application_port: u16,
    pub host: Seq<char>,
    pub port: u16,
    pub username: Seq<char>,
    pub password: Seq<char>,
    pub database_name: Seq<char>,
}

impl Settings {
    pub open spec fn model(&self) -> SettingsModel {
        SettingsModel {
            application_port: self.application_port,
            host: self.database.host@,
            port: self.database.port,
            username: self.database.username@,
            password: self.database.password@,
            database_name: self.database.database_name@,
        }
    }
}

pub open spec fn has_setting(entries: Seq<FieldView>, k: SettingKey) -> bool {
    key_count(entries, setting_path(k)) > 0
}

pub open spec fn text_of(entries: Seq<FieldView>, k: SettingKey) -> Seq<char> {
    value_of(entries, setting_path(k))
}

/// The settings that dotted entries describe. The settings are checked in the order of
/// `SettingKey`; the first one missing, or the first port that is no port, is reported.
pub open spec fn settings_of(entries: Seq<FieldView>) -> Result<SettingsModel, ConfigError> {
    if !has_setting(entries, SettingKey::ApplicationPort) {
        Err(ConfigError::Missing(SettingKey::ApplicationPort))
    } else if spec_parse_port(text_of(entries, SettingKey::ApplicationPort)) is None {
        Err(ConfigError::NotAPort(SettingKey::ApplicationPort))
    } else if !has_setting(entries, SettingKey::DatabaseHost) {
        Err(ConfigError::Missing(SettingKey::DatabaseHost))
    } else if !has_setting(entries, SettingKey::DatabasePort) {
        Err(ConfigError::Missing(SettingKey::DatabasePort))
    } else if spec_parse_port(text_of(entries, SettingKey::DatabasePort)) is None {
        Err(ConfigError::NotAPort(SettingKey::DatabasePort))
    } else if !has_setting(entries, SettingKey::DatabaseUsername) {
        Err(ConfigError::Missing(SettingKey::DatabaseUsername))
    } else if !has_setting(entries, SettingKey::DatabasePassword) {
        Err(ConfigError::Missing(SettingKey::DatabasePassword))
    } else if !has_setting(entries, SettingKey::DatabaseName) {
        Err(ConfigError::Missing(SettingKey::DatabaseName))
    } else {
        Ok(
            SettingsModel {
                application_port: spec_parse_port(
                    text_of(entries, SettingKey::ApplicationPort),
                )->Some_0,
                host: text_of(entries, SettingKey::DatabaseHost),
                port: spec_parse_port(text_of(entries, SettingKey::DatabasePort))->Some_0,
                username: text_of(entries, SettingKey::DatabaseUsername),
                password: text_of(entries, SettingKey::DatabasePassword),
                database_name: text_of(entries, SettingKey::DatabaseName),
            },
        )
    }
}

pub open spec fn settings_result_model(r: Result<Settings, ConfigError>) -> Result<
    SettingsModel,
    ConfigError,
> {
    match r {
        Ok(s) => Ok(s.model()),
        Err(e) => Err(e),
    }
}

fn required(entries: &Vec<(String, String)>, path: &str, k: SettingKey) -> (r: Result<
    String,
    ConfigError,
>)
    requires
        path@ == setting_path(k),
    ensures
        r is Ok <==> has_setting(pairs_view(entries@), k),
        r matches Ok(v) ==> v@ == text_of(pairs_view(entries@), k),
        r matches Err(e) ==> e == ConfigError::Missing(k),
{
    match lookup(entries, path) {
        Some(v) => Ok(v),
        None => Err(ConfigError::Missing(k)),
    }
}

fn required_port(entries: &Vec<(String, String)>, path: &str, k: SettingKey) -> (r: Result<
    u16,
    ConfigError,
>)
    requires
        path@ == setting_path(k),
    ensures
        r is Ok <==> has_setting(pairs_view(entries@), k) && spec_parse_port(
            text_of(pairs_view(entries@), k),
        ) is Some,
        r matches Ok(p) ==> Some(p) == spec_parse_port(text_of(pairs_view(entries@), k)),
        r matches Err(e) ==> e == if has_setting(pairs_view(entries@), k) {
            ConfigError::NotAPort(k)
        } else {
            ConfigError::Missing(k)
        },
{
    let text = required(entries, path, k)?;
    match parse_port(text.as_str()) {
        Some(p) => Ok(p),
        None => Err(ConfigError::NotAPort(k)),
    }
}

impl Settings {
    /// Reads the settings from the text of a configuration file.
    pub fn from_config_text(text: &str) -> (r: Result<Settings, ConfigError>)
        ensures
            settings_result_model(r) == settings_of(config_entries(text@)),
    {
        let entries = parse_config(text);
        Settings::from_entries(&entries)
    }

    /// Builds the settings from the dotted (path, value) entries of a configuration file.
    pub fn from_entries(entries: &Vec<(String, String)>) -> (r: Result<Settings, ConfigError>)
        ensures
            settings_result_model(r) == settings_of(pairs_view(entries@)),
    {
        proof {
            reveal_strlit("application_port");
            reveal_strlit("database.host");
            reveal_strlit("database.port");
            reveal_strlit("database.username");
            reveal_strlit("database.password");
            reveal_strlit("database.database_name");
        }
        let application_port = match required_port(
            entries,
            "application_port",
            SettingKey::ApplicationPort,
        ) {
            Ok(p) => p,
            Err(e) => return Err(e),
        };
        let host = match required(entries, "database.host", SettingKey::DatabaseHost) {
            Ok(v) => v,
            Err(e) => return Err(e),
        };
        let port = match required_port(entries, "database.port", SettingKey::DatabasePort) {
            Ok(p) => p,
            Err(e) => return Err(e),
        };
        let username = match required(entries, "database.username", SettingKey::DatabaseUsername) {
            Ok(v) => v,
            Err(e) => return Err(e),
        };
        let password = match required(entries, "database.password", SettingKey::DatabasePassword) {
            Ok(v) => v,
            Err(e) => return Err(e),
        };
        let database_name = match required(
            entries,
            "database.database_name",
            SettingKey::DatabaseName,
        ) {
            Ok(v) => v,
            Err(e) => return Err(e),
        };
        Ok(
            Settings {
                database: DatabaseSettings { username, password, port, host, database_name },
                application_port,
            },
        )
    }
}

} // verus!
