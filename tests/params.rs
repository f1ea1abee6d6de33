use elmer::gui::{Model, RawSubscriptionArgument, SubscriptionArgumentType, DEFAULT_DATA_LIMIT};
use elmer::params::{parse_port, ConnectionParams};

#[test]
fn port_parsing_follows_u16() {
    assert_eq!(parse_port("5672"), Some(5672));
    assert_eq!(parse_port("0"), Some(0));
    assert_eq!(parse_port("65535"), Some(65535));
    assert_eq!(parse_port("+80"), Some(80));
    assert_eq!(parse_port("00080"), Some(80));
    assert_eq!(parse_port("65536"), None);
    assert_eq!(parse_port("999999999999"), None);
    assert_eq!(parse_port(""), None);
    assert_eq!(parse_port("+"), None);
    assert_eq!(parse_port("-1"), None);
    assert_eq!(parse_port("-0"), None);
    assert_eq!(parse_port("56 72"), None);
    assert_eq!(parse_port("abc"), None);
    assert_eq!(parse_port("5\u{e9}"), None);
    for s in ["1", "443", "5671", "15672", "+0", "65534"] {
        assert_eq!(parse_port(s), s.parse::<u16>().ok());
    }
}

#[test]
fn validate_records_bad_port() {
    let mut p = ConnectionParams::default();
    p.port = "70000".to_string();
    p.validate();
    assert_eq!(p.validation_error.as_deref(), Some("Port must be a valid integer < 65535"));
    p.port = "5672".to_string();
    p.validate();
    assert_eq!(p.validation_error, None);
}

#[test]
fn default_params() {
    let p = ConnectionParams::default();
    assert_eq!(p.hostname, "localhost");
    assert_eq!(p.username, "guest");
    assert_eq!(p.password, "");
    assert_eq!(p.vhost, "/");
    assert!(p.tls);
    assert_eq!(p.port, "5672");
    assert!(p.wildcard);
    assert_eq!(p.exchange, "");
    assert_eq!(p.validation_error, None);
}

#[test]
fn build_url_copies_parameters() {
    let mut p = ConnectionParams::default();
    p.hostname = "broker.example".to_string();
    p.port = "5671".to_string();
    p.tls = false;
    p.vhost = "prod".to_string();
    let u = p.build_url();
    assert!(!u.tls);
    assert_eq!(u.host, "broker.example");
    assert_eq!(u.port, 5671);
    assert_eq!(u.username, "guest");
    assert_eq!(u.password, "");
    assert_eq!(u.vhost, "prod");
}

#[test]
fn argument_name_validity() {
    let mut a = RawSubscriptionArgument::default();
    assert!(!a.is_name_valid());
    assert!(matches!(a.t, SubscriptionArgumentType::LongString));
    a.name = "x-match".to_string();
    assert!(a.is_name_valid());
}

#[test]
fn argument_type_labels() {
    assert_eq!(SubscriptionArgumentType::Boolean.label(), "Bool");
    assert_eq!(SubscriptionArgumentType::LongUInt.label(), "32 bit unsigned int");
    assert_eq!(SubscriptionArgumentType::DecimalValue.label(), "Decimal");
    assert_eq!(SubscriptionArgumentType::Double.label(), "64 bit float");
}

#[test]
fn default_model_is_empty() {
    let m = Model::default();
    assert_eq!(m.data_limit, DEFAULT_DATA_LIMIT);
    assert!(m.data.is_empty());
}
