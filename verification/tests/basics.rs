use ws_heartbeat::config::{default_fancy_help, default_help_cache_secs, Config};
use ws_heartbeat::json::{heartbeat_payload, typed_payload};
use ws_heartbeat::text::{chars_of, decimal_string, lower_chars, to_ascii_lowercase, trim_chars};

#[test]
fn defaults_match_documentation() {
    assert!(default_fancy_help());
    assert_eq!(default_help_cache_secs(), 60);
}

#[test]
fn summary_text_renders_every_field() {
    let cfg = Config {
        heartbeat_interval_secs: 0,
        bind_ip: "0.0.0.0".to_string(),
        bind_port: 65535,
        fancy_help: false,
        help_cache_secs: 18446744073709551615,
    };
    assert_eq!(
        cfg.summary_text(),
        "\nConfiguration:\n  bind_ip: 0.0.0.0\n  bind_port: 65535\n  heartbeat_interval_secs: 0\n  fancy_help: false\n  help_cache_secs: 18446744073709551615"
    );
}

#[test]
fn decimal_rendering_matches_display() {
    for n in [0u64, 7, 10, 99, 100, 1234567890, u64::MAX] {
        assert_eq!(decimal_string(n), n.to_string());
    }
}

#[test]
fn ascii_lowercase_leaves_other_chars() {
    assert_eq!(to_ascii_lowercase("HeLLo, WÖRLD 42"), "hello, wÖrld 42");
}

#[test]
fn heartbeat_payloads_are_exact() {
    assert_eq!(heartbeat_payload("request"), "{\"data\":\"request\",\"type\":\"heartbeat\"}");
    assert_eq!(heartbeat_payload("manual"), "{\"data\":\"manual\",\"type\":\"heartbeat\"}");
}

#[test]
fn typed_payload_escapes_type_and_parses_data() {
    assert_eq!(
        typed_payload("we\"ird", "{ \"x\" : [1, 2] }"),
        "{\"data\":{\"x\":[1,2]},\"type\":\"we\\\"ird\"}"
    );
    assert_eq!(typed_payload("t", "not json"), "{\"data\":null,\"type\":\"t\"}");
}

#[test]
fn trimming_is_idempotent_and_commutes_with_lowercasing() {
    let raw = chars_of("\u{3000}\t Hello World \u{2028}\n");
    let once = trim_chars(&raw);
    assert_eq!(once.iter().collect::<String>(), "Hello World");
    assert_eq!(trim_chars(&once), once);
    assert_eq!(trim_chars(&lower_chars(&raw)), lower_chars(&trim_chars(&raw)));
}

#[test]
fn payload_type_escapes_controls_like_serde_json() {
    assert_eq!(
        typed_payload("a\u{1}\n\"\\\u{8}\u{c}\r\t\u{1f}\u{7f}é", "null"),
        "{\"data\":null,\"type\":\"a\\u0001\\n\\\"\\\\\\b\\f\\r\\t\\u001f\u{7f}é\"}"
    );
}

#[test]
fn float_data_survives_the_round_trip() {
    assert_eq!(
        typed_payload("t", "[0.1,1e300,5e-324,2.2250738585072014e-308,0.30000000000000004]"),
        "{\"data\":[0.1,1e+300,5e-324,2.2250738585072014e-308,0.30000000000000004],\"type\":\"t\"}"
    );
}

#[test]
fn fancy_help_needs_config_and_no_no_color() {
    let mut cfg = Config {
        heartbeat_interval_secs: 1,
        bind_ip: String::new(),
        bind_port: 0,
        fancy_help: true,
        help_cache_secs: 1,
    };
    assert!(cfg.fancy_help_enabled(false));
    assert!(!cfg.fancy_help_enabled(true));
    cfg.fancy_help = false;
    assert!(!cfg.fancy_help_enabled(false));
}
