//! Settings of the BMP280 reader and of its rack MQTT publication, resolved
//! from the values of their environment variables.

use vstd::prelude::*;
use vstd::string::StringExecFns;

use crate::settings::{
    optional_u32_setting_result, parse_optional_u32_setting, parse_u64_setting,
    parse_u8_setting, u64_setting_result, u8_setting_result, Setting, SettingError,
};

verus! {

/// Default I2C bus device.
pub const DEFAULT_I2C_BUS: &'static str = "/dev/i2c-1";

/// Default 7-bit I2C address of the sensor.
pub const DEFAULT_ADDRESS: u8 = 0x76;

/// Default delay between two readings, in milliseconds.
pub const DEFAULT_POLL_MS: u64 = 1_000;

/// Node name used when `SIGMA_NODE_NAME` is unset and the host's name is unknown.
pub const DEFAULT_NODE_NAME: &'static str = "pi";

/// Default rack MQTT broker host.
pub const DEFAULT_MQTT_HOST: &'static str = "192.168.50.1";

/// Default rack MQTT broker port.
pub const DEFAULT_MQTT_PORT: u64 = 1883;

/// What the reader's configuration is resolved from: the values of its
/// environment variables (`None` when a variable is unset) and the host's name.
pub struct Bmp280Env {
    /// `BMP280_I2C_BUS`
    pub i2c_bus: Option<String>,
    /// `BMP280_I2C_ADDR`
    pub i2c_addr: Option<String>,
    /// `BMP280_POLL_MS`
    pub poll_ms: Option<String>,
    /// `BMP280_MAX_READS`
    pub max_reads: Option<String>,
    /// `SIGMA_NODE_NAME`
    pub node_name: Option<String>,
    /// The host's name as the system reports it (`None` when it cannot be
    /// found): the default node name.
    pub hostname: Option<String>,
    /// `BMP280_MQTT_TOPIC`
    pub mqtt_topic: Option<String>,
}

/// The reader's configuration.
#[derive(Debug)]
pub struct Config {
    pub i2c_bus: String,
    pub address: u8,
    pub poll_ms: u64,
    pub max_reads: Option<u32>,
    pub node_name: String,
    pub topic: String,
}

/// The text of an optional string.
pub open spec fn opt_text(value: Option<String>) -> Option<Seq<char>> {
    match value {
        Some(s) => Some(s@),
        None => None,
    }
}

/// `value`, or `default` when unset.
pub open spec fn or_default(value: Option<String>, default: Seq<char>) -> Seq<char> {
    match value {
        Some(s) => s@,
        None => default,
    }
}

/// The node name: `SIGMA_NODE_NAME`, else the host's name, else `pi`.
pub open spec fn node_name_of(env: &Bmp280Env) -> Seq<char> {
    or_default(env.node_name, or_default(env.hostname, DEFAULT_NODE_NAME@))
}

/// The default topic for a node: `rack/sensors/{node}/bmp280`.
pub open spec fn default_topic(node: Seq<char>) -> Seq<char> {
    "rack/sensors/"@ + node + "/bmp280"@
}

fn as_text(value: &Option<String>) -> (r: Option<&str>)
    ensures
        crate::settings::text_of(r) == opt_text(*value),
{
    match value {
        Some(s) => Some(s.as_str()),
        None => None,
    }
}

fn text_or(value: &Option<String>, default: &str) -> (r: String)
    ensures
        r@ == or_default(*value, default@),
{
    match value {
        Some(s) => s.clone(),
        None => String::from_str(default),
    }
}

impl Config {
    /// Resolves the configuration. The address is read first, then the poll
    /// interval, then the read limit; the first that does not parse is the error.
    pub fn from_env(env: &Bmp280Env) -> (r: Result<Config, SettingError>)
        ensures
            match u8_setting_result(Setting::I2cAddress, opt_text(env.i2c_addr), DEFAULT_ADDRESS) {
                Err(e) => r == Err::<Config, SettingError>(e),
                Ok(address) => match u64_setting_result(
                    Setting::PollMs,
                    opt_text(env.poll_ms),
                    DEFAULT_POLL_MS,
                ) {
                    Err(e) => r == Err::<Config, SettingError>(e),
                    Ok(poll_ms) => match optional_u32_setting_result(
                        Setting::MaxReads,
                        opt_text(env.max_reads),
                    ) {
                        Err(e) => r == Err::<Config, SettingError>(e),
                        Ok(max_reads) => r matches Ok(c) && c.address == address && c.poll_ms
                            == poll_ms && c.max_reads == max_reads && c.i2c_bus@ == or_default(
                            env.i2c_bus,
                            DEFAULT_I2C_BUS@,
                        ) && c.node_name@ == node_name_of(env) && c.topic@ == or_default(
                            env.mqtt_topic,
                            default_topic(node_name_of(env)),
                        ),
                    },
                },
            },
    {
        let i2c_bus = text_or(&env.i2c_bus, DEFAULT_I2C_BUS);
        let address = parse_u8_setting(Setting::I2cAddress, as_text(&env.i2c_addr), DEFAULT_ADDRESS)?;
        let poll_ms = parse_u64_setting(Setting::PollMs, as_text(&env.poll_ms), DEFAULT_POLL_MS)?;
        let max_reads = parse_optional_u32_setting(Setting::MaxReads, as_text(&env.max_reads))?;
        let node_name = match &env.node_name {
            Some(n) => n.clone(),
            None => text_or(&env.hostname, DEFAULT_NODE_NAME),
        };
        let topic = match &env.mqtt_topic {
            Some(t) => t.clone(),
            None => {
                let mut t = String::from_str("rack/sensors/");
                t.append(node_name.as_str());
                t.append("/bmp280");
                t
            },
        };
        Ok(Config { i2c_bus, address, poll_ms, max_reads, node_name, topic })
    }
}

/// The values of the environment variables of the rack MQTT publication.
pub struct MqttEnv {
    /// `MQTT_HOST`
    pub host: Option<String>,
    /// `MQTT_PORT`
    pub port: Option<String>,
    /// `MQTT_USER`
    pub user: Option<String>,
    /// `MQTT_PASS`
    pub pass: Option<String>,
}

/// Broker settings of the rack MQTT publication.
#[derive(Debug)]
pub struct MqttSettings {
    pub host: String,
    pub port: u16,
    pub user: String,
    pub pass: String,
}

/// Why the MQTT settings are incomplete.
#[derive(Clone, Copy, Debug, PartialEq, Eq, Structural)]
pub enum MqttSettingError {
    /// `MQTT_PORT` is not a decimal `u64`.
    Port(SettingError),
    /// `MQTT_USER` is unset.
    MissingUser,
    /// `MQTT_PASS` is unset.
    MissingPass,
}

/// The port: the `u64` setting (default 1883) kept to its low 16 bits.
pub open spec fn port_of(port: u64) -> u16 {
    (port % 65536) as u16
}

impl MqttSettings {
    /// Resolves the broker settings: the port is read first, then the user,
    /// then the password; both credentials are required.
    pub fn from_env(env: &MqttEnv) -> (r: Result<MqttSettings, MqttSettingError>)
        ensures
            match u64_setting_result(Setting::MqttPort, opt_text(env.port), DEFAULT_MQTT_PORT) {
                Err(e) => r == Err::<MqttSettings, MqttSettingError>(MqttSettingError::Port(e)),
                Ok(port) => if env.user is None {
                    r == Err::<MqttSettings, MqttSettingError>(MqttSettingError::MissingUser)
                } else if env.pass is None {
                    r == Err::<MqttSettings, MqttSettingError>(MqttSettingError::MissingPass)
                } else {
                    r matches Ok(m) && m.host@ == or_default(env.host, DEFAULT_MQTT_HOST@) && m.port
                        == port_of(port) && m.user@ == env.user->0@ && m.pass@ == env.pass->0@
                },
            },
    {
        let host = text_or(&env.host, DEFAULT_MQTT_HOST);
        let port = match parse_u64_setting(Setting::MqttPort, as_text(&env.port), DEFAULT_MQTT_PORT) {
            Ok(p) => p,
            Err(e) => return Err(MqttSettingError::Port(e)),
        };
        let user = match &env.user {
            Some(u) => u.clone(),
            None => return Err(MqttSettingError::MissingUser),
        };
        let pass = match &env.pass {
            Some(p) => p.clone(),
            None => return Err(MqttSettingError::MissingPass),
        };
        assert((port as u16) == port % 65536) by (bit_vector);
        Ok(MqttSettings { host, port: port as u16, user, pass })
    }
}

/// The MQTT client id of a node: `bmp280-{node}`.
pub fn mqtt_client_id(node_name: &str) -> (id: String)
    ensures
        id@ == "bmp280-"@ + node_name@,
{
    let mut id = String::from_str("bmp280-");
    id.append(node_name);
    id
}

} // verus!
