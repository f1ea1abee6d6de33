use elmer::field::{DecimalValue, FieldTable, FieldValue};
use elmer::gui::{ConnectionStatus, RawSubscriptionArgument, SubscriptionArgumentType, ViewState};
use elmer::params::ConnectionParams;
use elmer::protocol::{Binding, ConnectionCommand, ConnectionUpdate};

fn arg(t: SubscriptionArgumentType, name: &str, value: &str) -> RawSubscriptionArgument {
    RawSubscriptionArgument { t, value: value.to_string(), name: name.to_string() }
}

fn binding(id: u128, exchange: &str) -> Binding {
    Binding {
        id,
        exchange: exchange.to_string(),
        routing_key: "#".to_string(),
        arguments: FieldTable { entries: Vec::new() },
    }
}

#[test]
fn integer_arguments_parse_in_range() {
    let v = arg(SubscriptionArgumentType::LongInt, "n", "-7").parse_value();
    assert!(matches!(v, Ok(FieldValue::LongInt(-7))));
    let v = arg(SubscriptionArgumentType::ShortShortInt, "n", "-128").parse_value();
    assert!(matches!(v, Ok(FieldValue::ShortShortInt(-128))));
    let v = arg(SubscriptionArgumentType::ShortShortUInt, "n", "+255").parse_value();
    assert!(matches!(v, Ok(FieldValue::ShortShortUInt(255))));
    let v = arg(SubscriptionArgumentType::LongLongInt, "n", "-9223372036854775808").parse_value();
    assert!(matches!(v, Ok(FieldValue::LongLongInt(i64::MIN))));
    let v = arg(SubscriptionArgumentType::LongUInt, "n", "4294967295").parse_value();
    assert!(matches!(v, Ok(FieldValue::LongUInt(u32::MAX))));
    let v = arg(SubscriptionArgumentType::ShortUInt, "n", "65535").parse_value();
    assert!(matches!(v, Ok(FieldValue::ShortUInt(65535))));
    let v = arg(SubscriptionArgumentType::ShortInt, "n", "-32768").parse_value();
    assert!(matches!(v, Ok(FieldValue::ShortInt(-32768))));
}

#[test]
fn out_of_range_arguments_are_rejected() {
    for (t, text) in [
        (SubscriptionArgumentType::ShortShortInt, "128"),
        (SubscriptionArgumentType::ShortShortUInt, "256"),
        (SubscriptionArgumentType::ShortShortUInt, "-1"),
        (SubscriptionArgumentType::LongUInt, "4294967296"),
        (SubscriptionArgumentType::LongLongInt, "9223372036854775808"),
        (SubscriptionArgumentType::LongLongInt, "123456789012345678901234567890"),
        (SubscriptionArgumentType::LongInt, ""),
        (SubscriptionArgumentType::LongInt, "-"),
        (SubscriptionArgumentType::LongInt, "1.5"),
        (SubscriptionArgumentType::ShortInt, " 1"),
    ] {
        let a = arg(t, "field", text);
        match a.parse_value() {
            Err(e) => assert_eq!(e, format!("Invalid value '{}' for field 'field'", text)),
            Ok(v) => panic!("{:?} should not read as {:?}", text, v),
        }
        assert!(!a.is_value_valid());
        assert!(!a.is_valid());
    }
}

#[test]
fn boolean_arguments_parse_exactly() {
    assert!(matches!(arg(SubscriptionArgumentType::Boolean, "b", "true").parse_value(), Ok(FieldValue::Boolean(true))));
    assert!(matches!(arg(SubscriptionArgumentType::Boolean, "b", "false").parse_value(), Ok(FieldValue::Boolean(false))));
    let e = arg(SubscriptionArgumentType::Boolean, "b", "True").parse_value();
    assert!(matches!(e, Err(ref m) if m == "Invalid value 'True' for field 'b'"));
}

#[test]
fn string_and_decimal_arguments() {
    match arg(SubscriptionArgumentType::LongString, "x-match", "all").parse_value() {
        Ok(FieldValue::LongString(s)) => assert_eq!(s, "all"),
        other => panic!("unexpected {:?}", other),
    }
    let d = arg(SubscriptionArgumentType::DecimalValue, "d", "{\"scale\":2,\"value\":12345}").parse_value();
    assert!(matches!(d, Ok(FieldValue::DecimalValue(DecimalValue { scale: 2, value: 12345 }))));
    let d = arg(SubscriptionArgumentType::DecimalValue, "d", "1.23").parse_value();
    assert!(matches!(d, Err(ref m) if m == "Invalid value '1.23' for field 'd'"));
}

#[test]
fn argument_validity_needs_name_and_value() {
    assert!(arg(SubscriptionArgumentType::LongInt, "n", "5").is_valid());
    assert!(!arg(SubscriptionArgumentType::LongInt, "", "5").is_valid());
    assert!(arg(SubscriptionArgumentType::LongInt, "", "5").is_value_valid());
    assert!(!arg(SubscriptionArgumentType::LongInt, "n", "x").is_valid());
}

#[test]
fn view_tracks_status_and_wildcard() {
    let mut params = ConnectionParams::default();
    params.exchange = "amq.topic".to_string();
    let mut view = ViewState::new();
    let r: Option<ConnectionCommand<()>> = view.process_connection_update(ConnectionUpdate::Connecting, &params);
    assert!(r.is_none());
    assert_eq!(view.connection, ConnectionStatus::Connecting);
    let r: Option<ConnectionCommand<()>> = view.process_connection_update(ConnectionUpdate::Connected, &params);
    assert_eq!(view.connection, ConnectionStatus::Connected);
    match r {
        Some(ConnectionCommand::Bind { exchange, routing_key, arguments }) => {
            assert_eq!(exchange, "amq.topic");
            assert_eq!(routing_key, "");
            assert!(arguments.entries.is_empty());
        }
        _ => panic!("expected the wildcard bind"),
    }
    params.wildcard = false;
    let r: Option<ConnectionCommand<()>> = view.process_connection_update(ConnectionUpdate::Connected, &params);
    assert!(r.is_none());
    let r: Option<ConnectionCommand<()>> = view.process_connection_update(ConnectionUpdate::Disconnected, &params);
    assert!(r.is_none());
    assert_eq!(view.connection, ConnectionStatus::Disconnected);
}

#[test]
fn view_keeps_bindings_by_id() {
    let params = ConnectionParams::default();
    let mut view = ViewState::new();
    for (id, x) in [(1, "a"), (2, "b"), (3, "c"), (2, "d")] {
        let r: Option<ConnectionCommand<()>> = view.process_connection_update(ConnectionUpdate::Bound(binding(id, x)), &params);
        assert!(r.is_none());
    }
    assert_eq!(view.queue_bindings.len(), 4);
    let _: Option<ConnectionCommand<()>> = view.process_connection_update(ConnectionUpdate::Unbound(binding(2, "zzz")), &params);
    let left: Vec<(u128, &str)> = view.queue_bindings.iter().map(|b| (b.id, b.exchange.as_str())).collect();
    assert_eq!(left, vec![(1, "a"), (3, "c")]);
    let _: Option<ConnectionCommand<()>> = view.process_connection_update(ConnectionUpdate::Unbound(binding(9, "a")), &params);
    assert_eq!(view.queue_bindings.len(), 2);
}

#[test]
fn view_appends_messages() {
    let params = ConnectionParams::default();
    let mut view = ViewState::new();
    let _: Option<ConnectionCommand<()>> = view.process_connection_update(
        ConnectionUpdate::TextDelivery { headers: "{}".to_string(), content: "hello".to_string(), content_type: None },
        &params,
    );
    let _: Option<ConnectionCommand<()>> = view.process_connection_update(
        ConnectionUpdate::BinaryDelivery { headers: "{\"k\":\"v\"}".to_string(), content_type: None },
        &params,
    );
    assert_eq!(view.gui_data.data.len(), 2);
    assert_eq!(view.gui_data.data[0].body, "hello");
    assert_eq!(view.gui_data.data[0].headers, "{}");
    assert_eq!(view.gui_data.data[1].body, "-Binary data-");
    assert_eq!(view.gui_data.data[1].headers, "{\"k\":\"v\"}");
    assert!(!view.gui_data.data[1].expanded);
    assert!(view.gui_data.data[1].highlights.is_empty());
}
