use mqtt_agent::config::Broker;
use mqtt_agent::config::Config;
use mqtt_agent::config::General;
use mqtt_agent::duration::parse_duration;
use mqtt_agent::duration::render_duration;
use mqtt_agent::numerals::i64_to_string;
use mqtt_agent::numerals::parse_i64_in;
use mqtt_agent::numerals::parse_u64;
use mqtt_agent::numerals::u64_to_string;

fn sample_config() -> Config {
    Config {
        general: General {
            devid: String::from("dev1"),
            tz: true,
            periodic_ms: 1000,
        },
        broker: Broker {
            host: String::from("tcp://localhost:1883"),
            user: String::from("user"),
            pass: String::from("pw"),
            qos: 1,
            topic: String::from("site"),
            reconnect_ms: 5000,
            retries: 3,
        },
    }
}

#[test]
fn u64_rendering() {
    assert_eq!(u64_to_string(0), "0");
    assert_eq!(u64_to_string(7), "7");
    assert_eq!(u64_to_string(1234567), "1234567");
    assert_eq!(u64_to_string(u64::MAX), "18446744073709551615");
}

#[test]
fn i64_rendering() {
    assert_eq!(i64_to_string(-42), "-42");
    assert_eq!(i64_to_string(0), "0");
    assert_eq!(i64_to_string(127), "127");
    assert_eq!(i64_to_string(i64::MIN), "-9223372036854775808");
}

#[test]
fn u64_parsing() {
    assert_eq!(parse_u64("0"), Some(0));
    assert_eq!(parse_u64("007"), Some(7));
    assert_eq!(parse_u64("18446744073709551615"), Some(u64::MAX));
    assert_eq!(parse_u64(""), None);
    assert_eq!(parse_u64("12a"), None);
    assert_eq!(parse_u64("-3"), None);
    assert_eq!(parse_u64("18446744073709551616"), None);
}

#[test]
fn i64_parsing_with_bounds() {
    assert_eq!(parse_i64_in("-128", -128, 127), Some(-128));
    assert_eq!(parse_i64_in("127", -128, 127), Some(127));
    assert_eq!(parse_i64_in("128", -128, 127), None);
    assert_eq!(parse_i64_in("-129", -128, 127), None);
    assert_eq!(parse_i64_in("-", -128, 127), None);
    assert_eq!(parse_i64_in("--1", -128, 127), None);
}

#[test]
fn duration_rendering() {
    assert_eq!(render_duration(1000), "1s");
    assert_eq!(render_duration(0), "0s");
    assert_eq!(render_duration(1500), "1500ms");
    assert_eq!(render_duration(250), "250ms");
}

#[test]
fn duration_parsing() {
    assert_eq!(parse_duration("1s"), Some(1000));
    assert_eq!(parse_duration("250ms"), Some(250));
    assert_eq!(parse_duration("0s"), Some(0));
    assert_eq!(parse_duration("10"), None);
    assert_eq!(parse_duration("ms"), None);
    assert_eq!(parse_duration(""), None);
    assert_eq!(parse_duration("18446744073709552s"), None);
}

#[test]
fn duration_round_trips() {
    for ms in [0u64, 1, 999, 1000, 1001, 5000, 60_000, 86_400_000] {
        let text = render_duration(ms);
        assert_eq!(parse_duration(&text), Some(ms));
    }
}

#[test]
fn config_render_parse_round_trip() {
    let cfg = sample_config();
    let text = cfg.render();
    let back = Config::parse(&text).expect("rendered config must parse");
    assert_eq!(back.general.devid, "dev1");
    assert!(back.general.tz);
    assert_eq!(back.general.periodic_ms, 1000);
    assert_eq!(back.broker.host, "tcp://localhost:1883");
    assert_eq!(back.broker.user, "user");
    assert_eq!(back.broker.pass, "pw");
    assert_eq!(back.broker.qos, 1);
    assert_eq!(back.broker.topic, "site");
    assert_eq!(back.broker.reconnect_ms, 5000);
    assert_eq!(back.broker.retries, 3);
}

#[test]
fn config_parses_handwritten_file() {
    let text = "general:\n  devid: dev1\n  tz: false\n  periodic: 2s\nbroker:\n  host: tcp://broker:1883\n  user: u\n  pass: p\n  qos: 2\n  topic: plant\n  reconnect: 750ms\n  retries: -1\n";
    let cfg = Config::parse(text).expect("well-formed config must parse");
    assert_eq!(cfg.general.devid, "dev1");
    assert!(!cfg.general.tz);
    assert_eq!(cfg.general.periodic_ms, 2000);
    assert_eq!(cfg.broker.host, "tcp://broker:1883");
    assert_eq!(cfg.broker.qos, 2);
    assert_eq!(cfg.broker.topic, "plant");
    assert_eq!(cfg.broker.reconnect_ms, 750);
    assert_eq!(cfg.broker.retries, -1);
}

#[test]
fn config_rejects_malformed_files() {
    // Wrong section header.
    assert!(Config::parse("broker:\n").is_none());
    // Bad boolean.
    let bad_tz = "general:\n  devid: d\n  tz: yes\n  periodic: 1s\nbroker:\n  host: h\n  user: u\n  pass: p\n  qos: 0\n  topic: t\n  reconnect: 1s\n  retries: 0\n";
    assert!(Config::parse(bad_tz).is_none());
    // Bad duration.
    let bad_dur = "general:\n  devid: d\n  tz: true\n  periodic: soon\nbroker:\n  host: h\n  user: u\n  pass: p\n  qos: 0\n  topic: t\n  reconnect: 1s\n  retries: 0\n";
    assert!(Config::parse(bad_dur).is_none());
    // Retries out of the signed-byte range.
    let bad_retries = "general:\n  devid: d\n  tz: true\n  periodic: 1s\nbroker:\n  host: h\n  user: u\n  pass: p\n  qos: 0\n  topic: t\n  reconnect: 1s\n  retries: 128\n";
    assert!(Config::parse(bad_retries).is_none());
    // Trailing garbage after the last field.
    let trailing = "general:\n  devid: d\n  tz: true\n  periodic: 1s\nbroker:\n  host: h\n  user: u\n  pass: p\n  qos: 0\n  topic: t\n  reconnect: 1s\n  retries: 0\nextra\n";
    assert!(Config::parse(trailing).is_none());
    // Missing final newline.
    let unterminated = "general:\n  devid: d\n  tz: true\n  periodic: 1s\nbroker:\n  host: h\n  user: u\n  pass: p\n  qos: 0\n  topic: t\n  reconnect: 1s\n  retries: 0";
    assert!(Config::parse(unterminated).is_none());
}

#[test]
fn config_round_trips_edge_values() {
    let cfg = Config {
        general: General {
            devid: String::new(),
            tz: false,
            periodic_ms: u64::MAX,
        },
        broker: Broker {
            host: String::from("h"),
            user: String::new(),
            pass: String::new(),
            qos: -2147483648,
            topic: String::from("a/b/c"),
            reconnect_ms: 1,
            retries: -128,
        },
    };
    let text = cfg.render();
    let back = Config::parse(&text).expect("rendered config must parse");
    assert_eq!(back.general.devid, "");
    assert_eq!(back.general.periodic_ms, u64::MAX);
    assert_eq!(back.broker.qos, -2147483648);
    assert_eq!(back.broker.topic, "a/b/c");
    assert_eq!(back.broker.reconnect_ms, 1);
    assert_eq!(back.broker.retries, -128);
}
