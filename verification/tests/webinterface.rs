use kiss_runtime::blackboard::Attributes;
use kiss_runtime::entries::{BlackboardEntry, BlackboardValue};
use kiss_runtime::error::RuntimeError;
use kiss_runtime::webinterface::{
    start_server, stop_server, summary, Config, Lifecycle, SUMMARY_MESSAGE,
};

fn stop(lifecycle: &mut Lifecycle) -> i32 {
    match stop_server(lifecycle) {
        Ok(_) => 0,
        Err(_) => -1,
    }
}

#[test]
fn lib_test_summary() {
    let with_terminator = String::from(SUMMARY_MESSAGE) + "\0";
    let result = &with_terminator[0..with_terminator.len() - 1];
    let summary_result = summary();

    assert_eq!(result, summary_result);
}

#[test]
fn test_startup() {
    let mut lifecycle = Lifecycle::new();

    let result = start_server(&lifecycle, Attributes::Absent);
    assert_eq!(result.is_ok(), true);
    lifecycle.started();

    let result = start_server(&lifecycle, Attributes::Absent);
    assert_eq!(result.is_err(), true);

    let _ = stop(&mut lifecycle);

    let result = stop(&mut lifecycle);
    assert_eq!(result, -1);

    let config = vec![
        BlackboardEntry {
            key: "hostname".to_string(),
            value: BlackboardValue::String("127.0.0.1".to_string()),
        },
        BlackboardEntry {
            key: "port".to_string(),
            value: BlackboardValue::Int(3333),
        },
    ];

    let result = start_server(&lifecycle, Attributes::Entries(config));

    assert_eq!(result.is_ok(), true);
    let config = result.unwrap();
    assert_eq!(config.hostname, "127.0.0.1");
    assert_eq!(config.port, 3333);
    lifecycle.started();

    let result = stop(&mut lifecycle);
    assert_eq!(result, 0);
}

#[test]
fn server_listens_on_the_defaults_without_attributes() {
    let config = Config::default();
    assert_eq!(config.hostname, "127.0.0.1");
    assert_eq!(config.port, 8080);
    let config = Config::new(&Vec::new());
    assert_eq!(config.hostname, "127.0.0.1");
    assert_eq!(config.port, 8080);
    let lifecycle = Lifecycle::new();
    let config = start_server(&lifecycle, Attributes::Malformed).unwrap();
    assert_eq!(config.hostname, "127.0.0.1");
    assert_eq!(config.port, 8080);
}

#[test]
fn later_attribute_overrides_an_earlier_one() {
    let entries = vec![
        BlackboardEntry {
            key: "port".to_string(),
            value: BlackboardValue::Int(1),
        },
        BlackboardEntry {
            key: "hostname".to_string(),
            value: BlackboardValue::String("a".to_string()),
        },
        BlackboardEntry {
            key: "port".to_string(),
            value: BlackboardValue::Int(2),
        },
        BlackboardEntry {
            key: "hostname".to_string(),
            value: BlackboardValue::String("b".to_string()),
        },
    ];
    let config = Config::new(&entries);
    assert_eq!(config.hostname, "b");
    assert_eq!(config.port, 2);
}

#[test]
fn attribute_of_another_kind_or_key_is_ignored() {
    let entries = vec![
        BlackboardEntry {
            key: "port".to_string(),
            value: BlackboardValue::String("99".to_string()),
        },
        BlackboardEntry {
            key: "hostname".to_string(),
            value: BlackboardValue::Int(5),
        },
        BlackboardEntry {
            key: "Port".to_string(),
            value: BlackboardValue::Int(5),
        },
        BlackboardEntry {
            key: "port".to_string(),
            value: BlackboardValue::Bool(true),
        },
    ];
    let config = Config::new(&entries);
    assert_eq!(config.hostname, "127.0.0.1");
    assert_eq!(config.port, 8080);
}

#[test]
fn port_is_the_low_16_bits_of_the_integer() {
    let port = |value: i32| {
        Config::new(&vec![BlackboardEntry {
            key: "port".to_string(),
            value: BlackboardValue::Int(value),
        }])
        .port
    };
    assert_eq!(port(0), 0);
    assert_eq!(port(65535), 65535);
    assert_eq!(port(65536), 0);
    assert_eq!(port(65536 + 8080), 8080);
    assert_eq!(port(-1), 65535);
    assert_eq!(port(i32::MIN), 0);
    assert_eq!(port(i32::MAX), 65535);
}

#[test]
fn running_server_refuses_a_second_start() {
    let mut lifecycle = Lifecycle::new();
    assert_eq!(
        stop_server(&mut lifecycle).err(),
        Some(RuntimeError::NotRunning)
    );
    lifecycle.started();
    assert_eq!(
        start_server(&lifecycle, Attributes::Absent).err(),
        Some(RuntimeError::AlreadyRunning)
    );
    assert!(stop_server(&mut lifecycle).is_ok());
    assert!(start_server(&lifecycle, Attributes::Absent).is_ok());
}
