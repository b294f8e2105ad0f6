use embedded_rack::bmp280::config::{mqtt_client_id, Bmp280Env, Config, MqttEnv, MqttSettingError, MqttSettings};
use embedded_rack::settings::{
    parse_optional_u32_setting, parse_u64_setting, parse_u8_setting, Setting, SettingError,
};

fn empty_env() -> Bmp280Env {
    Bmp280Env {
        i2c_bus: None,
        i2c_addr: None,
        poll_ms: None,
        max_reads: None,
        node_name: None,
        hostname: None,
        mqtt_topic: None,
    }
}

#[test]
fn u8_settings_in_hex_and_decimal() {
    let s = Setting::I2cAddress;
    assert_eq!(parse_u8_setting(s, None, 0x76), Ok(0x76));
    assert_eq!(parse_u8_setting(s, Some("0x77"), 0x76), Ok(0x77));
    assert_eq!(parse_u8_setting(s, Some("0X77"), 0x76), Ok(0x77));
    assert_eq!(parse_u8_setting(s, Some("0xFf"), 0), Ok(255));
    assert_eq!(parse_u8_setting(s, Some("119"), 0x76), Ok(119));
    assert_eq!(parse_u8_setting(s, Some("+7"), 0), Ok(7));
    assert_eq!(parse_u8_setting(s, Some("0x+7"), 0), Ok(7));
    assert_eq!(parse_u8_setting(s, Some("007"), 0), Ok(7));
    assert_eq!(parse_u8_setting(s, Some("0x100"), 0), Err(SettingError::NotHexU8 { setting: s }));
    assert_eq!(parse_u8_setting(s, Some("0x"), 0), Err(SettingError::NotHexU8 { setting: s }));
    assert_eq!(parse_u8_setting(s, Some("0x7g"), 0), Err(SettingError::NotHexU8 { setting: s }));
    assert_eq!(parse_u8_setting(s, Some("256"), 0), Err(SettingError::NotU8 { setting: s }));
    assert_eq!(parse_u8_setting(s, Some(""), 0), Err(SettingError::NotU8 { setting: s }));
    assert_eq!(parse_u8_setting(s, Some("-1"), 0), Err(SettingError::NotU8 { setting: s }));
    assert_eq!(parse_u8_setting(s, Some("+"), 0), Err(SettingError::NotU8 { setting: s }));
    assert_eq!(parse_u8_setting(s, Some(" 7"), 0), Err(SettingError::NotU8 { setting: s }));
    assert_eq!(parse_u8_setting(s, Some("7a"), 0), Err(SettingError::NotU8 { setting: s }));
}

#[test]
fn u8_settings_match_std() {
    for n in 0..=255u8 {
        let dec = n.to_string();
        let hex = format!("0x{:x}", n);
        assert_eq!(parse_u8_setting(Setting::I2cAddress, Some(&dec), 0), Ok(n));
        assert_eq!(parse_u8_setting(Setting::I2cAddress, Some(&hex), 0), Ok(n));
    }
}

#[test]
fn u64_and_u32_settings() {
    assert_eq!(parse_u64_setting(Setting::PollMs, None, 1000), Ok(1000));
    assert_eq!(parse_u64_setting(Setting::PollMs, Some("250"), 1000), Ok(250));
    assert_eq!(
        parse_u64_setting(Setting::PollMs, Some("18446744073709551615"), 0),
        Ok(u64::MAX)
    );
    assert_eq!(
        parse_u64_setting(Setting::PollMs, Some("18446744073709551616"), 0),
        Err(SettingError::NotU64 { setting: Setting::PollMs })
    );
    assert_eq!(
        parse_u64_setting(Setting::PollMs, Some("0x10"), 0),
        Err(SettingError::NotU64 { setting: Setting::PollMs })
    );
    assert_eq!(parse_optional_u32_setting(Setting::MaxReads, None), Ok(None));
    assert_eq!(parse_optional_u32_setting(Setting::MaxReads, Some("5")), Ok(Some(5)));
    assert_eq!(
        parse_optional_u32_setting(Setting::MaxReads, Some("4294967296")),
        Err(SettingError::NotU32 { setting: Setting::MaxReads })
    );
}

#[test]
fn config_defaults() {
    let c = Config::from_env(&empty_env()).unwrap();
    assert_eq!(c.i2c_bus, "/dev/i2c-1");
    assert_eq!(c.address, 0x76);
    assert_eq!(c.poll_ms, 1000);
    assert_eq!(c.max_reads, None);
    assert_eq!(c.node_name, "pi");
    assert_eq!(c.topic, "rack/sensors/pi/bmp280");
}

#[test]
fn config_from_values() {
    let mut env = empty_env();
    env.i2c_bus = Some("/dev/i2c-3".to_string());
    env.i2c_addr = Some("0x77".to_string());
    env.poll_ms = Some("2000".to_string());
    env.max_reads = Some("1".to_string());
    env.hostname = Some("rack-host".to_string());
    let c = Config::from_env(&env).unwrap();
    assert_eq!(c.i2c_bus, "/dev/i2c-3");
    assert_eq!(c.address, 0x77);
    assert_eq!(c.poll_ms, 2000);
    assert_eq!(c.max_reads, Some(1));
    assert_eq!(c.node_name, "rack-host");
    assert_eq!(c.topic, "rack/sensors/rack-host/bmp280");
    env.node_name = Some("pi1".to_string());
    let c = Config::from_env(&env).unwrap();
    assert_eq!(c.node_name, "pi1");
    assert_eq!(c.topic, "rack/sensors/pi1/bmp280");
    env.mqtt_topic = Some("custom/topic".to_string());
    assert_eq!(Config::from_env(&env).unwrap().topic, "custom/topic");
}

#[test]
fn node_name_defaults_to_host_name() {
    let mut env = empty_env();
    env.hostname = Some("pi1".to_string());
    let c = Config::from_env(&env).unwrap();
    assert_eq!(c.node_name, "pi1");
    assert_eq!(c.topic, "rack/sensors/pi1/bmp280");
}

#[test]
fn config_errors_in_order() {
    let mut env = empty_env();
    env.max_reads = Some("x".to_string());
    assert_eq!(
        Config::from_env(&env).unwrap_err(),
        SettingError::NotU32 { setting: Setting::MaxReads }
    );
    env.poll_ms = Some("x".to_string());
    assert_eq!(
        Config::from_env(&env).unwrap_err(),
        SettingError::NotU64 { setting: Setting::PollMs }
    );
    env.i2c_addr = Some("0xzz".to_string());
    assert_eq!(
        Config::from_env(&env).unwrap_err(),
        SettingError::NotHexU8 { setting: Setting::I2cAddress }
    );
}

#[test]
fn mqtt_settings() {
    let env = MqttEnv {
        host: None,
        port: None,
        user: Some("u".to_string()),
        pass: Some("p".to_string()),
    };
    let m = MqttSettings::from_env(&env).unwrap();
    assert_eq!(m.host, "192.168.50.1");
    assert_eq!(m.port, 1883);
    assert_eq!(m.user, "u");
    assert_eq!(m.pass, "p");
    let env = MqttEnv {
        host: Some("broker".to_string()),
        port: Some("65537".to_string()),
        user: Some("u".to_string()),
        pass: Some("p".to_string()),
    };
    let m = MqttSettings::from_env(&env).unwrap();
    assert_eq!(m.host, "broker");
    assert_eq!(m.port, 1);
}

#[test]
fn mqtt_settings_errors() {
    let env = MqttEnv { host: None, port: Some("x".to_string()), user: None, pass: None };
    assert_eq!(
        MqttSettings::from_env(&env).unwrap_err(),
        MqttSettingError::Port(SettingError::NotU64 { setting: Setting::MqttPort })
    );
    let env = MqttEnv { host: None, port: None, user: None, pass: Some("p".to_string()) };
    assert_eq!(MqttSettings::from_env(&env).unwrap_err(), MqttSettingError::MissingUser);
    let env = MqttEnv { host: None, port: None, user: Some("u".to_string()), pass: None };
    assert_eq!(MqttSettings::from_env(&env).unwrap_err(), MqttSettingError::MissingPass);
}

#[test]
fn client_id() {
    assert_eq!(mqtt_client_id("pi1"), "bmp280-pi1");
}
