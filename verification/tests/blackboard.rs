use kiss_runtime::bindings;
use kiss_runtime::blackboard::{
    as_json_schema_intern, get_bool, get_double, get_float, get_int, get_string, reset, set_bool,
    set_double, set_float, set_int, set_string, size, start_server, stop, subscribe_intern,
    summary, unsubscribe_intern, Attributes, Blackboard, SUMMARY_MESSAGE,
};
use kiss_runtime::data::Notification;
use kiss_runtime::capabilities::Capabilities;
use kiss_runtime::entries::{BlackboardEntry, BlackboardValue};
use kiss_runtime::schema::{
    SchemaProperty, PROPERTIES_MEMBER, SCHEMA_DRAFT, SCHEMA_MEMBER, SCHEMA_ROOT_TYPE, TYPE_MEMBER,
    VALUE_MEMBER,
};
use kiss_runtime::text::{copy_with_nul, copy_with_nul_code};

fn empty_caps() -> bindings::Capabilities {
    *Capabilities::new().inner()
}

fn startup(blackboard: &mut Blackboard) -> i32 {
    let _result = stop(blackboard);
    let caps = empty_caps();
    let result = start_server(blackboard, &caps, Attributes::Absent);
    if result.is_ok() {
        0
    } else {
        -1
    }
}

fn deliver(due: &Vec<Notification>, log: &mut Vec<(String, usize, usize)>) {
    for call in due {
        log.push((call.key.clone(), call.callback, call.user_data));
    }
}

fn render(properties: &Vec<SchemaProperty>) -> String {
    let mut listed = serde_json::Map::new();
    for property in properties {
        let mut object = serde_json::Map::new();
        object.insert(
            TYPE_MEMBER.to_string(),
            serde_json::Value::from(property.json_type.name()),
        );
        let value = match &property.value {
            BlackboardValue::String(v) => serde_json::Value::from(v.clone()),
            BlackboardValue::Int(v) => serde_json::Value::from(*v),
            BlackboardValue::Float(v) => serde_json::Value::from(f32::from_bits(*v)),
            BlackboardValue::Double(v) => serde_json::Value::from(f64::from_bits(*v)),
            BlackboardValue::Bool(v) => serde_json::Value::from(*v),
        };
        object.insert(VALUE_MEMBER.to_string(), value);
        listed.insert(property.key.clone(), serde_json::Value::Object(object));
    }
    let mut schema = serde_json::Map::new();
    schema.insert(SCHEMA_MEMBER.to_string(), serde_json::Value::from(SCHEMA_DRAFT));
    schema.insert(TYPE_MEMBER.to_string(), serde_json::Value::from(SCHEMA_ROOT_TYPE));
    schema.insert(PROPERTIES_MEMBER.to_string(), serde_json::Value::Object(listed));
    serde_json::Value::Object(schema).to_string()
}

#[test]
fn test_start() {
    let key_values: Vec<BlackboardEntry> = vec![
        BlackboardEntry {
            key: "StringValue".to_string(),
            value: BlackboardValue::String("Hello, World!".to_string()),
        },
        BlackboardEntry {
            key: "IntValue".to_string(),
            value: BlackboardValue::Int(42),
        },
    ];

    let mut blackboard = Blackboard::new();
    let caps = Capabilities::new();
    let _result = stop(&mut blackboard);
    let result = start_server(&mut blackboard, caps.inner(), Attributes::Entries(key_values));
    assert_eq!(result.is_ok(), true);

    assert!(blackboard.is_running());
    assert_eq!(size(&blackboard), 2);

    let mut int_value: i32 = 0;
    let result = get_int(&blackboard, Some("IntValue"), Some(&mut int_value));
    assert_eq!(result, 0);
    assert_eq!(int_value, 42);

    let string_value_length = get_string(&blackboard, Some("StringValue"), None);
    assert!(string_value_length > 0);

    let mut buffer = vec![0u8; string_value_length as usize];
    let string_value_length = get_string(&blackboard, Some("StringValue"), Some(&mut buffer));

    assert!(string_value_length > 0);

    let string_value = String::from_utf8(buffer).unwrap();
    assert_eq!(string_value, "Hello, World!\0");

    let result = stop(&mut blackboard);
    assert_eq!(result, 0);

    assert!(!blackboard.is_running());
}

#[test]
fn test_get_set_int() {
    let mut blackboard = Blackboard::new();
    assert_eq!(startup(&mut blackboard), 0);
    let key = "int_key_4\0";
    let key_c = &key[0..key.len() - 1];
    let value = 42;

    let (result, _due) = set_int(&mut blackboard, Some(key_c), value);
    assert_eq!(result, 0);

    let mut return_value = 0;

    let result = get_int(&blackboard, Some(key_c), Some(&mut return_value));
    assert_eq!(result, 0);
    assert_eq!(value, return_value);
}

#[test]
fn test_get_int_not_found() {
    let mut blackboard = Blackboard::new();
    assert_eq!(startup(&mut blackboard), 0);
    let key = "int_key_not_found\0";
    let key_c = &key[0..key.len() - 1];
    let mut return_value = 0;
    let result = get_int(&blackboard, Some(key_c), Some(&mut return_value));
    assert_eq!(result, -1);
}

#[test]
fn test_get_set_float() {
    let mut blackboard = Blackboard::new();
    assert_eq!(startup(&mut blackboard), 0);
    let key = "float_key\0";
    let key_c = &key[0..key.len() - 1];
    let value: f32 = 42.0;

    let (result, _due) = set_float(&mut blackboard, Some(key_c), value.to_bits());
    assert_eq!(result, 0);

    let mut return_bits: u32 = 0;

    let result = get_float(&blackboard, Some(key_c), Some(&mut return_bits));
    assert_eq!(result, 0);
    let return_value = f32::from_bits(return_bits);
    assert!((value - return_value).abs() <= f32::EPSILON);
    assert_eq!(value.to_bits(), return_bits);
}

#[test]
fn test_get_float_not_found() {
    let mut blackboard = Blackboard::new();
    assert_eq!(startup(&mut blackboard), 0);
    let key = "float_key_not_found\0";
    let key_c = &key[0..key.len() - 1];
    let mut return_value: u32 = 0;

    let result = get_float(&blackboard, Some(key_c), Some(&mut return_value));
    assert_eq!(result, -1);
}

#[test]
fn test_get_set_bool() {
    let mut blackboard = Blackboard::new();
    assert_eq!(startup(&mut blackboard), 0);
    let key = "bool_key\0";
    let key_c = &key[0..key.len() - 1];
    let value = true;

    let (result, _due) = set_bool(&mut blackboard, Some(key_c), value);
    assert_eq!(result, 0);

    let mut result_value = false;

    let result = get_bool(&blackboard, Some(key_c), Some(&mut result_value));
    assert_eq!(result, 0);
    assert_eq!(result_value, value);
}

#[test]
fn test_get_bool_not_found() {
    let mut blackboard = Blackboard::new();
    assert_eq!(startup(&mut blackboard), 0);
    let key = "bool_key_not_found\0";
    let key_c = &key[0..key.len() - 1];

    let mut result_value = false;
    let result = get_bool(&blackboard, Some(key_c), Some(&mut result_value));
    assert_eq!(result, -1);
}

#[test]
fn test_get_set_double() {
    let mut blackboard = Blackboard::new();
    assert_eq!(startup(&mut blackboard), 0);

    let key = "double_key\0";
    let key_c = &key[0..key.len() - 1];
    let value: f64 = 42.0;

    let (result, _due) = set_double(&mut blackboard, Some(key_c), value.to_bits());
    assert_eq!(result, 0);

    let mut result_bits: u64 = 0;
    let result = get_double(&blackboard, Some(key_c), Some(&mut result_bits));
    assert_eq!(result, 0);
    assert_eq!(f64::from_bits(result_bits), value);
}

#[test]
fn test_get_double_not_found() {
    let mut blackboard = Blackboard::new();
    assert_eq!(startup(&mut blackboard), 0);
    let key = "double_key_not_found\0";
    let key_c = &key[0..key.len() - 1];
    let mut result_value: u64 = 0;
    let result = get_double(&blackboard, Some(key_c), Some(&mut result_value));
    assert_eq!(result, -1);
}

#[test]
fn test_summary() {
    let with_terminator = String::from(SUMMARY_MESSAGE) + "\0";
    let result = &with_terminator[0..with_terminator.len() - 1];
    let summary_result = summary();
    assert_eq!(result, summary_result);
}

#[test]
fn test_get_set_string() {
    let mut blackboard = Blackboard::new();
    assert_eq!(startup(&mut blackboard), 0);

    let key = "key\0";
    let value = "value\0";
    let key_c = &key[0..key.len() - 1];
    let value_c = &value[0..value.len() - 1];

    let (result, _due) = set_string(&mut blackboard, Some(key_c), Some(value_c));
    assert_eq!(result, 0);

    let size = get_string(&blackboard, Some(key_c), None);
    assert_eq!(size, value.len() as i32);

    let mut buffer = vec![0u8; value.len()];

    let result = get_string(&blackboard, Some(key_c), Some(&mut buffer));
    assert_eq!(result, value.len() as i32);

    let result_str = String::from_utf8(buffer).unwrap();
    assert_eq!(result_str, value);
}

#[test]
fn test_get_string_not_found() {
    let mut blackboard = Blackboard::new();
    assert_eq!(startup(&mut blackboard), 0);
    let key = "key_not_found\0";
    let key_c = &key[0..key.len() - 1];

    let result = get_string(&blackboard, Some(key_c), None);
    assert_eq!(result, -1);
}

#[test]
fn test_reset() {
    let mut blackboard = Blackboard::new();
    assert_eq!(startup(&mut blackboard), 0);
    assert_eq!(size(&blackboard), 0);
    let key = "int_key\0";
    let key_c = &key[0..key.len() - 1];
    let value = 42;

    let (result, _due) = set_int(&mut blackboard, Some(key_c), value);
    assert_eq!(result, 0);
    let mut result_value = 0;
    let result = get_int(&blackboard, Some(key_c), Some(&mut result_value));
    assert_eq!(result, 0);
    assert_eq!(result_value, value);
    assert_eq!(size(&blackboard), 1);

    reset(&mut blackboard);
    assert_eq!(size(&blackboard), 0);
    let mut result_value = 0;
    let result = get_int(&blackboard, Some(key_c), Some(&mut result_value));
    assert_eq!(result, -1);
}

#[test]
fn test_subscribe() {
    let mut blackboard = Blackboard::new();
    assert_eq!(startup(&mut blackboard), 0);

    let callback: usize = 0x1000;
    let mut calls: Vec<(String, usize, usize)> = Vec::new();

    let key = "int_key\0";
    let key_c = &key[0..key.len() - 1];
    let component = "component\0";
    let component_c = &component[0..component.len() - 1];

    let result = subscribe_intern(&mut blackboard, Some(key_c), Some(component_c), callback, 0);
    assert_eq!(result.is_ok(), true);
    let callback_called = !calls.is_empty();
    assert_eq!(callback_called, false);
    let set_value = 42;
    let (result, due) = set_int(&mut blackboard, Some(key_c), set_value);
    deliver(&due, &mut calls);
    assert_eq!(result, 0);
    let callback_called = calls.iter().any(|call| call.1 == callback);
    assert_eq!(callback_called, true);

    let result = unsubscribe_intern(&mut blackboard, Some(key_c), Some(component_c));
    assert_eq!(result.is_ok(), true);
}

#[test]
fn test_subscribe_with_user_data() {
    let mut blackboard = Blackboard::new();
    assert_eq!(startup(&mut blackboard), 0);

    let callback: usize = 0x1000;
    let sender_ptr: usize = 0x2000;
    let mut received: Vec<(String, usize, usize)> = Vec::new();

    let key = "int_key\0";
    let key_c = &key[0..key.len() - 1];
    let component = "component\0";
    let component_c = &component[0..component.len() - 1];

    let result =
        subscribe_intern(&mut blackboard, Some(key_c), Some(component_c), callback, sender_ptr);
    assert_eq!(result.is_ok(), true);

    let set_value = 42;
    let (result, due) = set_int(&mut blackboard, Some(key_c), set_value);
    deliver(&due, &mut received);
    assert_eq!(result, 0);

    assert_eq!(received.len() == 1, true);

    let set_value = 43;
    let (result, due) = set_int(&mut blackboard, Some(key_c), set_value);
    deliver(&due, &mut received);
    assert_eq!(result, 0);

    assert_eq!(received.len() == 2, true);

    let set_value = 60;
    let (result, due) = set_int(&mut blackboard, Some(key_c), set_value);
    deliver(&due, &mut received);
    assert_eq!(result, 0);

    assert_eq!(received.len() == 3, true);
    for call in &received {
        assert_eq!(call, &(key_c.to_string(), callback, sender_ptr));
    }

    let result = unsubscribe_intern(&mut blackboard, Some(key_c), Some(component_c));
    assert_eq!(result.is_ok(), true);
}

#[test]
fn test_json_schema() {
    let mut blackboard = Blackboard::new();
    assert_eq!(startup(&mut blackboard), 0);

    let (result, _due) = set_int(&mut blackboard, Some("int_key"), 42);
    assert_eq!(result, 0);

    let (result, _due) = set_string(&mut blackboard, Some("string_key"), Some("Hello, World!"));
    assert_eq!(result, 0);

    let value: f32 = 42.0;
    let (result, _due) = set_float(&mut blackboard, Some("float_key"), value.to_bits());
    assert_eq!(result, 0);

    let value: f64 = 42.0;
    let (result, _due) = set_double(&mut blackboard, Some("double_key"), value.to_bits());
    assert_eq!(result, 0);

    let (result, _due) = set_bool(&mut blackboard, Some("bool_key"), true);
    assert_eq!(result, 0);

    let properties = as_json_schema_intern(&blackboard).unwrap();
    let text = render(&properties);

    let buffer_size = copy_with_nul(&text, None);
    assert!(buffer_size > 0);

    let mut buffer = vec![0u8; buffer_size];
    let buffer_size = copy_with_nul(&text, Some(&mut buffer));
    assert!(buffer_size > 0);
    assert_eq!(buffer.len(), buffer_size);
    assert_eq!(buffer[buffer_size - 1], 0);

    let mut reported = Vec::new();
    assert_eq!(
        copy_with_nul_code(&text, Some(&mut reported)),
        buffer_size as i32
    );
    assert_eq!(reported, buffer);

    let schema: serde_json::Value = serde_json::from_slice(&buffer[..buffer_size - 1]).unwrap();
    assert_eq!(schema["$schema"], "http://json-schema.org/draft-07/schema#");
    assert_eq!(schema["type"], "object");
    assert_eq!(schema["properties"].as_object().unwrap().len(), 5);
    assert_eq!(schema["properties"]["int_key"]["type"], "integer");
    assert_eq!(schema["properties"]["int_key"]["value"], 42);
    assert_eq!(schema["properties"]["string_key"]["type"], "string");
    assert_eq!(schema["properties"]["string_key"]["value"], "Hello, World!");
    assert_eq!(schema["properties"]["float_key"]["type"], "number");
    assert_eq!(schema["properties"]["float_key"]["value"], 42.0);
    assert_eq!(schema["properties"]["double_key"]["type"], "number");
    assert_eq!(schema["properties"]["double_key"]["value"], 42.0);
    assert_eq!(schema["properties"]["bool_key"]["type"], "boolean");
    assert_eq!(schema["properties"]["bool_key"]["value"], true);
}

#[test]
fn test_error_case_set_string_try_to_get_int() {
    let mut blackboard = Blackboard::new();
    assert_eq!(startup(&mut blackboard), 0);

    let (result, _due) = set_string(&mut blackboard, Some("string_key"), Some("Hello, World!"));
    assert_eq!(result, 0);

    let mut value = 0;
    let result = get_int(&blackboard, Some("string_key"), Some(&mut value));

    assert_eq!(result, -1);
}
