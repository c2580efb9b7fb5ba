use kiss_runtime::blackboard::{
    as_json_schema_intern, get_bool, get_bool_intern, get_double_intern, get_float_intern,
    get_int, get_int_intern, get_string, get_string_intern, reset, reset_intern, set_bool_intern,
    set_double_intern, set_float_intern, set_int, set_int_intern, set_string, set_string_intern,
    size, size_intern, start, start_server, stop, subscribe, subscribe_intern, unsubscribe,
    unsubscribe_intern, Attributes, Blackboard,
};
use kiss_runtime::data::BlackBoardData;
use kiss_runtime::capabilities::Capabilities;
use kiss_runtime::entries::{BlackboardEntry, BlackboardValue, ValueKind};
use kiss_runtime::error::RuntimeError;
use kiss_runtime::schema::JsonType;
use kiss_runtime::text::{copy_with_nul, str_eq};

fn started() -> Blackboard {
    let mut blackboard = Blackboard::new();
    let caps = Capabilities::new();
    assert_eq!(start(&mut blackboard, caps.inner(), Attributes::Absent), 0);
    blackboard
}

fn entry(key: &str, value: BlackboardValue) -> BlackboardEntry {
    BlackboardEntry {
        key: key.to_string(),
        value,
    }
}

#[test]
fn set_then_get_an_integer() {
    let mut blackboard = started();
    let (code, due) = set_int(&mut blackboard, Some("n"), 42);
    assert_eq!(code, 0);
    assert!(due.is_empty());
    let mut value = 0;
    assert_eq!(get_int(&blackboard, Some("n"), Some(&mut value)), 0);
    assert_eq!(value, 42);
    assert_eq!(size(&blackboard), 1);
    assert_eq!(stop(&mut blackboard), 0);
}

#[test]
fn start_with_attributes() {
    let mut blackboard = Blackboard::new();
    let caps = Capabilities::new();
    let attributes = Attributes::Entries(vec![
        entry("s", BlackboardValue::String("hi".to_string())),
        entry("n", BlackboardValue::Int(7)),
    ]);
    assert_eq!(start(&mut blackboard, caps.inner(), attributes), 0);
    assert_eq!(size(&blackboard), 2);
    assert_eq!(get_string(&blackboard, Some("s"), None), 3);
    let mut buffer = vec![0xffu8; 3];
    assert_eq!(get_string(&blackboard, Some("s"), Some(&mut buffer)), 3);
    assert_eq!(buffer, b"hi\0".to_vec());
    let mut n = 0;
    assert_eq!(get_int(&blackboard, Some("n"), Some(&mut n)), 0);
    assert_eq!(n, 7);
}

#[test]
fn string_read_as_integer_fails() {
    let mut blackboard = started();
    assert_eq!(set_string(&mut blackboard, Some("k"), Some("v")).0, 0);
    let mut value = 5;
    assert!(get_int(&blackboard, Some("k"), Some(&mut value)) < 0);
    assert_eq!(value, 5);
    assert_eq!(
        get_int_intern(&blackboard, Some("k"), Some(&mut value)),
        Err(RuntimeError::TypeMismatch)
    );
}

#[test]
fn three_sets_notify_three_times_in_order() {
    let mut blackboard = started();
    assert_eq!(subscribe(&mut blackboard, Some("k"), Some("c"), 0xcb, 0xd0), 0);
    let mut calls = Vec::new();
    for value in [1, 2, 3] {
        let (code, due) = set_int(&mut blackboard, Some("k"), value);
        assert_eq!(code, 0);
        for call in due {
            let mut seen = 0;
            assert_eq!(get_int(&blackboard, Some("k"), Some(&mut seen)), 0);
            calls.push((call.key, call.component, call.callback, call.user_data, seen));
        }
    }
    assert_eq!(
        calls,
        vec![
            ("k".to_string(), "c".to_string(), 0xcb, 0xd0, 1),
            ("k".to_string(), "c".to_string(), 0xcb, 0xd0, 2),
            ("k".to_string(), "c".to_string(), 0xcb, 0xd0, 3),
        ]
    );
}

#[test]
fn null_user_data_is_handed_back_as_null() {
    let mut blackboard = started();
    assert_eq!(subscribe(&mut blackboard, Some("k"), Some("c"), 0xcb, 0), 0);
    let (code, due) = set_int(&mut blackboard, Some("k"), 1);
    assert_eq!(code, 0);
    assert_eq!(due.len(), 1);
    assert_eq!(due[0].callback, 0xcb);
    assert_eq!(due[0].user_data, 0);
}

#[test]
fn get_returns_what_was_set_for_each_kind() {
    let mut blackboard = started();
    assert!(set_string_intern(&mut blackboard, Some("s"), Some("text")).is_ok());
    assert!(set_int_intern(&mut blackboard, Some("i"), -7).is_ok());
    assert!(set_float_intern(&mut blackboard, Some("f"), 1.5f32.to_bits()).is_ok());
    assert!(set_double_intern(&mut blackboard, Some("d"), (-2.25f64).to_bits()).is_ok());
    assert!(set_bool_intern(&mut blackboard, Some("b"), true).is_ok());

    let mut text = Vec::new();
    assert_eq!(get_string_intern(&blackboard, Some("s"), Some(&mut text)), Ok(5));
    assert_eq!(text, b"text\0".to_vec());
    let mut i = 0;
    assert_eq!(get_int_intern(&blackboard, Some("i"), Some(&mut i)), Ok(()));
    assert_eq!(i, -7);
    let mut f = 0u32;
    assert_eq!(get_float_intern(&blackboard, Some("f"), Some(&mut f)), Ok(()));
    assert_eq!(f32::from_bits(f), 1.5);
    let mut d = 0u64;
    assert_eq!(get_double_intern(&blackboard, Some("d"), Some(&mut d)), Ok(()));
    assert_eq!(f64::from_bits(d), -2.25);
    let mut b = false;
    assert_eq!(get_bool_intern(&blackboard, Some("b"), Some(&mut b)), Ok(()));
    assert!(b);
}

#[test]
fn not_a_number_is_read_back_bit_for_bit() {
    let mut blackboard = started();
    let bits = 0x7fc0_1234u32;
    assert!(f32::from_bits(bits).is_nan());
    assert!(set_float_intern(&mut blackboard, Some("f"), bits).is_ok());
    let mut read = 0u32;
    assert_eq!(get_float_intern(&blackboard, Some("f"), Some(&mut read)), Ok(()));
    assert_eq!(read, bits);
}

#[test]
fn get_of_another_kind_is_a_type_mismatch() {
    let mut blackboard = started();
    assert!(set_float_intern(&mut blackboard, Some("k"), 1.0f32.to_bits()).is_ok());
    let mut d = 9u64;
    assert_eq!(
        get_double_intern(&blackboard, Some("k"), Some(&mut d)),
        Err(RuntimeError::TypeMismatch)
    );
    assert_eq!(d, 9);
    let mut i = 9;
    assert_eq!(
        get_int_intern(&blackboard, Some("k"), Some(&mut i)),
        Err(RuntimeError::TypeMismatch)
    );
    let mut b = true;
    assert_eq!(
        get_bool_intern(&blackboard, Some("k"), Some(&mut b)),
        Err(RuntimeError::TypeMismatch)
    );
    assert!(b);
    let mut text = vec![1u8, 2, 3];
    assert_eq!(
        get_string_intern(&blackboard, Some("k"), Some(&mut text)),
        Err(RuntimeError::TypeMismatch)
    );
    assert_eq!(text, vec![1u8, 2, 3]);
    assert!(set_double_intern(&mut blackboard, Some("k"), 1.0f64.to_bits()).is_ok());
    let mut f = 9u32;
    assert_eq!(
        get_float_intern(&blackboard, Some("k"), Some(&mut f)),
        Err(RuntimeError::TypeMismatch)
    );
    assert_eq!(f, 9);
}

#[test]
fn second_set_replaces_the_value_and_keeps_the_size() {
    let mut blackboard = started();
    assert!(set_int_intern(&mut blackboard, Some("other"), 0).is_ok());
    assert!(set_int_intern(&mut blackboard, Some("k"), 1).is_ok());
    assert_eq!(size_intern(&blackboard), Ok(2));
    assert!(set_int_intern(&mut blackboard, Some("k"), 2).is_ok());
    assert_eq!(size_intern(&blackboard), Ok(2));
    let mut value = 0;
    assert_eq!(get_int_intern(&blackboard, Some("k"), Some(&mut value)), Ok(()));
    assert_eq!(value, 2);
}

#[test]
fn set_of_another_kind_changes_the_kind() {
    let mut blackboard = started();
    assert!(set_int_intern(&mut blackboard, Some("k"), 1).is_ok());
    assert!(set_string_intern(&mut blackboard, Some("k"), Some("one")).is_ok());
    assert_eq!(size_intern(&blackboard), Ok(1));
    let mut value = 0;
    assert_eq!(
        get_int_intern(&blackboard, Some("k"), Some(&mut value)),
        Err(RuntimeError::TypeMismatch)
    );
    assert_eq!(get_string_intern(&blackboard, Some("k"), None), Ok(4));
}

#[test]
fn reset_empties_the_store_and_keeps_the_subscribers() {
    let mut blackboard = started();
    assert!(subscribe_intern(&mut blackboard, Some("k"), Some("c"), 0xcb, 0xd0).is_ok());
    assert!(set_int_intern(&mut blackboard, Some("k"), 1).is_ok());
    assert!(set_int_intern(&mut blackboard, Some("j"), 1).is_ok());
    assert_eq!(reset_intern(&mut blackboard), Ok(()));
    assert_eq!(size(&blackboard), 0);
    assert_eq!(
        get_int_intern(&blackboard, Some("k"), Some(&mut 0)),
        Err(RuntimeError::KeyNotFound)
    );
    let due = set_int_intern(&mut blackboard, Some("k"), 2).unwrap();
    assert_eq!(due.len(), 1);
    assert_eq!(due[0].component, "c");
    assert_eq!(reset(&mut blackboard), 0);
    assert_eq!(size(&blackboard), 0);
}

#[test]
fn subscribing_twice_notifies_once() {
    let mut blackboard = started();
    assert!(subscribe_intern(&mut blackboard, Some("k"), Some("c"), 0xcb, 0xd0).is_ok());
    assert!(subscribe_intern(&mut blackboard, Some("k"), Some("c"), 0xcb, 0xd0).is_ok());
    assert!(subscribe_intern(&mut blackboard, Some("k"), Some("c"), 0xee, 0xff).is_ok());
    let due = set_int_intern(&mut blackboard, Some("k"), 1).unwrap();
    assert_eq!(due.len(), 1);
    assert_eq!(due[0].callback, 0xcb);
    assert_eq!(due[0].user_data, 0xd0);
}

#[test]
fn unsubscribed_component_is_not_notified() {
    let mut blackboard = started();
    assert!(subscribe_intern(&mut blackboard, Some("k"), Some("a"), 0xa, 1).is_ok());
    assert!(subscribe_intern(&mut blackboard, Some("k"), Some("b"), 0xb, 2).is_ok());
    assert!(subscribe_intern(&mut blackboard, Some("k"), Some("c"), 0xc, 3).is_ok());
    assert_eq!(unsubscribe_intern(&mut blackboard, Some("k"), Some("b")), Ok(()));
    let due = set_int_intern(&mut blackboard, Some("k"), 1).unwrap();
    let components: Vec<&str> = due.iter().map(|call| call.component.as_str()).collect();
    assert_eq!(components, vec!["a", "c"]);
    assert_eq!(unsubscribe(&mut blackboard, Some("k"), Some("b")), 0);
    assert_eq!(unsubscribe(&mut blackboard, Some("k"), Some("a")), 0);
    assert_eq!(unsubscribe(&mut blackboard, Some("k"), Some("c")), 0);
    assert!(set_int_intern(&mut blackboard, Some("k"), 2).unwrap().is_empty());
}

#[test]
fn subscribers_are_notified_in_registration_order() {
    let mut blackboard = started();
    assert!(subscribe_intern(&mut blackboard, Some("k"), Some("z"), 1, 0).is_ok());
    assert!(subscribe_intern(&mut blackboard, Some("other"), Some("m"), 2, 0).is_ok());
    assert!(subscribe_intern(&mut blackboard, Some("k"), Some("a"), 3, 0).is_ok());
    assert!(subscribe_intern(&mut blackboard, Some("k"), Some("m"), 4, 0).is_ok());
    let due = set_bool_intern(&mut blackboard, Some("k"), true).unwrap();
    let callbacks: Vec<usize> = due.iter().map(|call| call.callback).collect();
    assert_eq!(callbacks, vec![1, 3, 4]);
    assert!(due.iter().all(|call| call.key == "k"));
    let due = set_bool_intern(&mut blackboard, Some("other"), true).unwrap();
    assert_eq!(due.len(), 1);
    assert_eq!(due[0].callback, 2);
    assert!(set_bool_intern(&mut blackboard, Some("none"), true).unwrap().is_empty());
}

#[test]
fn subscription_need_not_find_the_key() {
    let mut blackboard = started();
    assert_eq!(size(&blackboard), 0);
    assert!(subscribe_intern(&mut blackboard, Some("later"), Some("c"), 9, 8).is_ok());
    assert_eq!(size(&blackboard), 0);
    let due = set_string_intern(&mut blackboard, Some("later"), Some("now")).unwrap();
    assert_eq!(due.len(), 1);
}

#[test]
fn same_component_may_listen_to_several_keys() {
    let mut blackboard = started();
    assert!(subscribe_intern(&mut blackboard, Some("a"), Some("c"), 1, 0).is_ok());
    assert!(subscribe_intern(&mut blackboard, Some("a_b"), Some("c"), 2, 0).is_ok());
    assert!(subscribe_intern(&mut blackboard, Some("a"), Some("b_c"), 3, 0).is_ok());
    let due = set_int_intern(&mut blackboard, Some("a"), 1).unwrap();
    let callbacks: Vec<usize> = due.iter().map(|call| call.callback).collect();
    assert_eq!(callbacks, vec![1, 3]);
    let due = set_int_intern(&mut blackboard, Some("a_b"), 1).unwrap();
    assert_eq!(due.len(), 1);
    assert_eq!(due[0].callback, 2);
}

#[test]
fn null_callback_is_refused() {
    let mut blackboard = started();
    assert_eq!(
        subscribe_intern(&mut blackboard, Some("k"), Some("c"), 0, 0xd0),
        Err(RuntimeError::NullInput)
    );
    assert_eq!(subscribe(&mut blackboard, Some("k"), Some("c"), 0, 0xd0), -1);
    assert!(set_int_intern(&mut blackboard, Some("k"), 1).unwrap().is_empty());
}

#[test]
fn string_read_reports_the_length_with_the_terminator() {
    let mut blackboard = started();
    for text in ["", "a", "value", "grüße", "日本語", "with\0nul"] {
        assert!(set_string_intern(&mut blackboard, Some("k"), Some(text)).is_ok());
        let first = get_string_intern(&blackboard, Some("k"), None).unwrap();
        assert_eq!(first, text.len() + 1);
        let mut buffer = vec![0u8; first];
        let second = get_string_intern(&blackboard, Some("k"), Some(&mut buffer)).unwrap();
        assert_eq!(second, first);
        let mut expected = text.as_bytes().to_vec();
        expected.push(0);
        assert_eq!(buffer, expected);
        assert_eq!(get_string(&blackboard, Some("k"), None), first as i32);
    }
}

#[test]
fn sized_copy_fills_a_buffer_of_any_size() {
    assert_eq!(copy_with_nul("abc", None), 4);
    let mut small = Vec::new();
    assert_eq!(copy_with_nul("abc", Some(&mut small)), 4);
    assert_eq!(small, b"abc\0".to_vec());
    let mut large = vec![7u8; 10];
    assert_eq!(copy_with_nul("", Some(&mut large)), 1);
    assert_eq!(large, vec![0u8]);
}

#[test]
fn schema_shows_each_key_with_its_type_and_value() {
    let mut blackboard = started();
    assert!(set_string_intern(&mut blackboard, Some("s"), Some("text")).is_ok());
    assert!(set_int_intern(&mut blackboard, Some("i"), -7).is_ok());
    assert!(set_float_intern(&mut blackboard, Some("f"), 1.5f32.to_bits()).is_ok());
    assert!(set_double_intern(&mut blackboard, Some("d"), 2.5f64.to_bits()).is_ok());
    assert!(set_bool_intern(&mut blackboard, Some("b"), false).is_ok());
    assert!(set_int_intern(&mut blackboard, Some("s"), 3).is_ok());
    let properties = as_json_schema_intern(&blackboard).unwrap();
    let shown: Vec<(String, &str, String)> = properties
        .iter()
        .map(|p| (p.key.clone(), p.json_type.name(), format!("{:?}", p.value)))
        .collect();
    assert_eq!(
        shown,
        vec![
            ("s".to_string(), "integer", "Int(3)".to_string()),
            ("i".to_string(), "integer", "Int(-7)".to_string()),
            ("f".to_string(), "number", format!("Float({})", 1.5f32.to_bits())),
            ("d".to_string(), "number", format!("Double({})", 2.5f64.to_bits())),
            ("b".to_string(), "boolean", "Bool(false)".to_string()),
        ]
    );
    assert_eq!(JsonType::of(ValueKind::Utf8String).name(), "string");
    assert_eq!(JsonType::of(ValueKind::Int32), JsonType::Integer);
    assert_eq!(JsonType::of(ValueKind::Float32), JsonType::Number);
    assert_eq!(JsonType::of(ValueKind::Float64), JsonType::Number);
    assert_eq!(JsonType::of(ValueKind::Bool), JsonType::Boolean);
}

#[test]
fn schema_of_an_empty_store_has_no_properties() {
    let blackboard = started();
    assert!(as_json_schema_intern(&blackboard).unwrap().is_empty());
}

#[test]
fn stopped_blackboard_refuses_every_operation() {
    let mut blackboard = Blackboard::new();
    assert!(!blackboard.is_running());
    assert_eq!(size_intern(&blackboard), Err(RuntimeError::NotRunning));
    assert_eq!(size(&blackboard), -1);
    assert_eq!(reset_intern(&mut blackboard), Err(RuntimeError::NotRunning));
    assert_eq!(reset(&mut blackboard), -1);
    assert_eq!(
        set_int_intern(&mut blackboard, Some("k"), 1).err(),
        Some(RuntimeError::NotRunning)
    );
    assert_eq!(
        set_string_intern(&mut blackboard, Some("k"), Some("v")).err(),
        Some(RuntimeError::NotRunning)
    );
    assert_eq!(set_int(&mut blackboard, Some("k"), 1).0, -1);
    assert_eq!(
        get_int_intern(&blackboard, Some("k"), Some(&mut 0)),
        Err(RuntimeError::NotRunning)
    );
    assert_eq!(
        get_string_intern(&blackboard, Some("k"), None),
        Err(RuntimeError::NotRunning)
    );
    assert_eq!(
        as_json_schema_intern(&blackboard).err(),
        Some(RuntimeError::NotRunning)
    );
    assert_eq!(
        subscribe_intern(&mut blackboard, Some("k"), Some("c"), 1, 0),
        Err(RuntimeError::NotRunning)
    );
    assert_eq!(
        unsubscribe_intern(&mut blackboard, Some("k"), Some("c")),
        Err(RuntimeError::NotRunning)
    );
    assert_eq!(unsubscribe(&mut blackboard, Some("k"), Some("c")), -1);
}

#[test]
fn missing_input_is_refused() {
    let mut blackboard = started();
    assert_eq!(
        set_int_intern(&mut blackboard, None, 1).err(),
        Some(RuntimeError::NullInput)
    );
    assert_eq!(
        set_string_intern(&mut blackboard, None, Some("v")).err(),
        Some(RuntimeError::NullInput)
    );
    assert_eq!(
        set_string_intern(&mut blackboard, Some("k"), None).err(),
        Some(RuntimeError::NullInput)
    );
    assert_eq!(set_string(&mut blackboard, Some("k"), None).0, -1);
    assert_eq!(size(&blackboard), 0);
    assert!(set_int_intern(&mut blackboard, Some("k"), 1).is_ok());
    assert_eq!(
        get_int_intern(&blackboard, None, Some(&mut 0)),
        Err(RuntimeError::NullInput)
    );
    assert_eq!(
        get_int_intern(&blackboard, Some("k"), None),
        Err(RuntimeError::NullInput)
    );
    assert_eq!(get_int(&blackboard, Some("k"), None), -1);
    assert_eq!(get_bool(&blackboard, None, Some(&mut false)), -1);
    assert_eq!(
        get_string_intern(&blackboard, None, None),
        Err(RuntimeError::NullInput)
    );
    assert_eq!(
        subscribe_intern(&mut blackboard, None, Some("c"), 1, 0),
        Err(RuntimeError::NullInput)
    );
    assert_eq!(
        subscribe_intern(&mut blackboard, Some("k"), None, 1, 0),
        Err(RuntimeError::NullInput)
    );
    assert_eq!(
        unsubscribe_intern(&mut blackboard, None, Some("c")),
        Err(RuntimeError::NullInput)
    );
    assert_eq!(
        unsubscribe_intern(&mut blackboard, Some("k"), None),
        Err(RuntimeError::NullInput)
    );
}

#[test]
fn missing_key_is_told_from_a_wrong_kind() {
    let mut blackboard = started();
    assert!(set_int_intern(&mut blackboard, Some("k"), 1).is_ok());
    assert_eq!(
        get_bool_intern(&blackboard, Some("K"), Some(&mut false)),
        Err(RuntimeError::KeyNotFound)
    );
    assert_eq!(
        get_bool_intern(&blackboard, Some("k"), Some(&mut false)),
        Err(RuntimeError::TypeMismatch)
    );
}

#[test]
fn running_blackboard_refuses_a_second_start() {
    let mut blackboard = started();
    assert!(set_int_intern(&mut blackboard, Some("k"), 1).is_ok());
    let caps = Capabilities::new();
    assert_eq!(
        start_server(&mut blackboard, caps.inner(), Attributes::Absent),
        Err(RuntimeError::AlreadyRunning)
    );
    assert_eq!(
        start(
            &mut blackboard,
            caps.inner(),
            Attributes::Entries(vec![entry("j", BlackboardValue::Int(2))])
        ),
        -1
    );
    assert_eq!(size(&blackboard), 1);
}

#[test]
fn unreadable_attributes_leave_the_blackboard_stopped() {
    let mut blackboard = Blackboard::new();
    let caps = Capabilities::new();
    assert_eq!(
        start_server(&mut blackboard, caps.inner(), Attributes::Malformed),
        Err(RuntimeError::BadAttributes)
    );
    assert!(!blackboard.is_running());
    assert_eq!(start(&mut blackboard, caps.inner(), Attributes::Malformed), -1);
    assert!(!blackboard.is_running());
    assert_eq!(start(&mut blackboard, caps.inner(), Attributes::Absent), 0);
    assert!(blackboard.is_running());
}

#[test]
fn later_attribute_of_a_key_replaces_the_earlier() {
    let mut blackboard = Blackboard::new();
    let caps = Capabilities::new();
    let attributes = Attributes::Entries(vec![
        entry("k", BlackboardValue::Int(1)),
        entry("j", BlackboardValue::Bool(true)),
        entry("k", BlackboardValue::String("two".to_string())),
    ]);
    assert_eq!(start_server(&mut blackboard, caps.inner(), attributes), Ok(()));
    assert_eq!(size(&blackboard), 2);
    assert_eq!(get_string(&blackboard, Some("k"), None), 4);
    let keys: Vec<String> = as_json_schema_intern(&blackboard)
        .unwrap()
        .iter()
        .map(|p| p.key.clone())
        .collect();
    assert_eq!(keys, vec!["k".to_string(), "j".to_string()]);
}

#[test]
fn stop_drops_entries_and_subscribers() {
    let mut blackboard = started();
    assert!(subscribe_intern(&mut blackboard, Some("k"), Some("c"), 1, 0).is_ok());
    assert!(set_int_intern(&mut blackboard, Some("k"), 1).is_ok());
    assert_eq!(stop(&mut blackboard), 0);
    assert_eq!(stop(&mut blackboard), 0);
    let caps = Capabilities::new();
    assert_eq!(start(&mut blackboard, caps.inner(), Attributes::Absent), 0);
    assert_eq!(size(&blackboard), 0);
    assert!(set_int_intern(&mut blackboard, Some("k"), 1).unwrap().is_empty());
}

#[test]
fn store_works_without_the_life_cycle() {
    let mut store = BlackBoardData::new();
    assert_eq!(store.size(), 0);
    assert!(!store.is_key_valid("k"));
    assert_eq!(store.subscribe("k", "c", 5, 6), Ok(()));
    assert_eq!(store.subscribe("k", "c", 0, 6), Err(RuntimeError::NullInput));
    let due = store.set("k", BlackboardValue::Int(3));
    assert_eq!(due.len(), 1);
    assert_eq!(store.notify("k").len(), 1);
    assert!(store.notify("j").is_empty());
    assert!(store.is_key_valid("k"));
    assert!(matches!(
        store.get("k", ValueKind::Int32),
        Ok(BlackboardValue::Int(3))
    ));
    assert_eq!(
        store.get("k", ValueKind::Bool).err(),
        Some(RuntimeError::TypeMismatch)
    );
    assert_eq!(
        store.get("j", ValueKind::Int32).err(),
        Some(RuntimeError::KeyNotFound)
    );
    assert_eq!(store.schema().len(), 1);
    store.unsubscribe("k", "c");
    store.unsubscribe("k", "c");
    assert!(store.set("k", BlackboardValue::Int(4)).is_empty());
    store.reset();
    assert_eq!(store.size(), 0);
    let copy = BlackboardValue::String("x".to_string()).clone();
    assert_eq!(copy.kind(), ValueKind::Utf8String);
    assert!(matches!(entry("k", copy).clone().value, BlackboardValue::String(_)));
}

#[test]
fn strings_are_compared_character_for_character() {
    assert!(str_eq("", ""));
    assert!(str_eq("key", "key"));
    assert!(!str_eq("key", "Key"));
    assert!(!str_eq("key", "keys"));
    assert!(!str_eq("key", ""));
    assert!(str_eq("grüße", "grüße"));
    assert!(!str_eq("grüße", "grusse"));
}

#[test]
fn each_error_says_what_failed() {
    let errors = [
        (RuntimeError::NotRunning, "Server is not running"),
        (RuntimeError::AlreadyRunning, "Server is already running"),
        (RuntimeError::NullInput, "Input is null pointer"),
        (RuntimeError::KeyNotFound, "Key not found"),
        (RuntimeError::TypeMismatch, "Failed to downcast value for key"),
        (RuntimeError::BadAttributes, "Failed to parse attributes"),
        (RuntimeError::UnknownType, "Unsupported type for key"),
        (RuntimeError::CapabilityNotFound, "Library not found"),
        (RuntimeError::SymbolNotFound, "Capability cannot be loaded"),
        (RuntimeError::LoadFailed, "Summary can not parsed"),
    ];
    for (error, text) in errors {
        assert_eq!(error.message(), text);
    }
}
