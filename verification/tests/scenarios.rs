use gojsonnet::callback::{native_reply, native_signature};
use gojsonnet::extract::{answer, first_probe, Extraction, Probe, Reading};
use gojsonnet::marshal::Op;
use gojsonnet::session::{decoded, outcome, text_pair};
use gojsonnet::{CText, Holders, Json, VmError};

#[test]
fn evaluated_document_is_read_from_the_reply() {
    let (filename, code) =
        text_pair("evaluate_snippet.jsonnet", "{foo: 1+2, bar: std.isBoolean(false)}").unwrap();
    assert_eq!(filename.as_bytes_with_nul(), b"evaluate_snippet.jsonnet\0");
    assert_eq!(code.as_bytes_with_nul(), b"{foo: 1+2, bar: std.isBoolean(false)}\0");
    let reply = "{\n   \"bar\": true,\n   \"foo\": 3\n}\n".to_owned();
    let json = outcome(0, reply).unwrap();
    let value: serde_json::Value = decoded(serde_json::from_str(&json)).unwrap();
    assert_eq!(value["foo"], serde_json::Value::from(3));
    assert_eq!(value["bar"], serde_json::Value::Bool(true));
    assert_eq!(value.as_object().unwrap().len(), 2);
}

#[test]
fn unknown_variable_reply_becomes_an_error_with_the_position() {
    let reply = "evaluate_snippet_syntax_error.jsonnet:1:7-10 Unknown variable: bar\n".to_owned();
    let e = outcome(1, reply).unwrap_err();
    assert!(matches!(e, VmError::GoJsonnetError { .. }));
    assert!(e
        .to_string()
        .starts_with("go-jsonnet returned error: evaluate_snippet_syntax_error.jsonnet:1:"));
    assert!(e.to_string().contains("Unknown variable"));
}

#[test]
fn external_variable_is_handed_over_as_text() {
    let (key, val) = text_pair("v", "true").unwrap();
    assert_eq!(key.as_bytes_with_nul(), b"v\0");
    assert_eq!(val.as_bytes_with_nul(), b"true\0");
    let json = outcome(0, "{\n   \"v\": \"true\"\n}\n".to_owned()).unwrap();
    let value: serde_json::Value = decoded(serde_json::from_str(&json)).unwrap();
    assert_eq!(value["v"], serde_json::Value::String("true".to_owned()));
    assert_ne!(value["v"], serde_json::Value::Bool(true));
}

#[test]
fn native_hello_takes_its_argument_and_returns_its_greeting() {
    let signature = native_signature("hello", &["arg1"]).unwrap();
    assert_eq!(signature.argc, 1);
    let mut holders: Holders<usize> = Holders::new();
    assert_eq!(holders.insert("hello", 1), None);

    // The interpreter calls with the string "world".
    let mut probe = first_probe();
    let argument = loop {
        let reading = match probe {
            Probe::Null => Reading { status: 0, bits: 0, text: None },
            Probe::Bool => Reading { status: 2, bits: 0, text: None },
            Probe::Number => Reading { status: 0, bits: 0, text: None },
            Probe::Text => Reading { status: 0, bits: 0, text: Some("world".to_owned()) },
        };
        match answer(probe, reading) {
            Extraction::Value(value) => break value,
            Extraction::Ask(next) => probe = next,
            other => panic!("unexpected: {:?}", other),
        }
    };
    assert_eq!(argument, Json::Text("world".to_owned()));

    let greeting = match &argument {
        Json::Text(arg1) => Json::Text(format!("hello {}", arg1)),
        other => panic!("unexpected: {:?}", other),
    };
    let mut success = 0;
    let value = native_reply(Some(greeting), &mut success);
    assert_eq!(success, 1);
    assert_eq!(value.checked_plan(), Some(vec![Op::Text(CText::new("hello world").unwrap())]));
}

#[test]
fn second_registration_supersedes_the_first() {
    let mut holders: Holders<usize> = Holders::new();
    assert_eq!(holders.insert("hello", 10), None);
    assert_eq!(holders.insert("hello", 20), Some(10));
    assert_eq!(holders.len(), 1);
    assert_eq!(holders.into_held(), vec![20]);
}

#[test]
fn value_with_a_zero_byte_has_no_plan() {
    assert_eq!(Json::Text("a\0b".to_owned()).checked_plan(), None);
    assert_eq!(
        Json::Object(vec![("k\0".to_owned(), Json::Null)]).checked_plan(),
        None
    );
    assert_eq!(Json::Array(vec![Json::Null]).checked_plan().unwrap().len(), 3);
}

#[test]
fn failed_native_call_is_not_marked_as_success() {
    for before in [0, 1, -1] {
        let mut success = before;
        let value = native_reply(None, &mut success);
        assert_eq!(success, 0);
        assert_eq!(value.plan(), vec![Op::Null]);
    }
}

#[test]
fn returned_value_with_a_zero_byte_fails_the_call() {
    let mut success = 1;
    let value = native_reply(Some(Json::Text("a\0b".to_owned())), &mut success);
    assert_eq!(success, 0);
    assert_eq!(value.checked_plan(), Some(vec![Op::Null]));
}
