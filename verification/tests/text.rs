use gojsonnet::c_text::{find_nul, terminated};
use gojsonnet::error::{decimal_text, interpreter_message, nul_message, serde_message};
use gojsonnet::session::{decoded, outcome, text, text_pair};
use gojsonnet::{CText, CommentStyle, StringStyle, VmError};

#[test]
fn string_style_codes_are_letters() {
    assert_eq!(StringStyle::Double.as_i32(), 100);
    assert_eq!(StringStyle::Single.as_i32(), 115);
    assert_eq!(StringStyle::Leave.as_i32(), 108);
    assert_eq!(StringStyle::Double.as_i32(), 'd' as i32);
    assert_eq!(StringStyle::Single.as_i32(), 's' as i32);
    assert_eq!(StringStyle::Leave.as_i32(), 'l' as i32);
}

#[test]
fn comment_style_codes_are_letters() {
    assert_eq!(CommentStyle::Hash.as_i32(), 104);
    assert_eq!(CommentStyle::Slash.as_i32(), 115);
    assert_eq!(CommentStyle::Leave.as_i32(), 108);
    assert_eq!(CommentStyle::Hash.as_i32(), 'h' as i32);
    assert_eq!(CommentStyle::Slash.as_i32(), 's' as i32);
    assert_eq!(CommentStyle::Leave.as_i32(), 'l' as i32);
}

#[test]
fn styles_compare_and_copy() {
    let style = StringStyle::Single;
    let copy = style;
    assert_eq!(style, copy);
    assert_ne!(StringStyle::Double, StringStyle::Leave);
    assert_ne!(CommentStyle::Hash, CommentStyle::Slash);
}

#[test]
fn find_nul_gives_the_first_zero() {
    assert_eq!(find_nul(b""), None);
    assert_eq!(find_nul(b"abc"), None);
    assert_eq!(find_nul(b"\0"), Some(0));
    assert_eq!(find_nul(b"ab\0cd\0"), Some(2));
    assert_eq!(find_nul(&[1, 2, 3, 0]), Some(3));
}

#[test]
fn terminated_appends_one_zero() {
    assert_eq!(terminated(""), vec![0u8]);
    assert_eq!(terminated("1 + 2"), b"1 + 2\0".to_vec());
    assert_eq!(terminated("a\0b"), b"a\0b\0".to_vec());
    assert_eq!(terminated("\u{e9}"), vec![0xc3, 0xa9, 0]);
}

#[test]
fn c_text_accepts_text_without_zero() {
    let made = CText::new("evaluate_snippet.jsonnet").unwrap();
    assert_eq!(made.as_bytes_with_nul(), b"evaluate_snippet.jsonnet\0");
    assert_eq!(made.into_bytes_with_nul(), b"evaluate_snippet.jsonnet\0".to_vec());
    let empty = CText::new("").unwrap();
    assert_eq!(empty.as_bytes_with_nul(), b"\0");
    let wide = CText::new("\u{3042}").unwrap();
    assert_eq!(wide.as_bytes_with_nul(), &[0xe3, 0x81, 0x82, 0]);
}

#[test]
fn c_text_refuses_an_inner_zero() {
    let e = CText::new("ab\0cd\0").unwrap_err();
    assert_eq!(e.nul_position(), 2);
    assert_eq!(e.into_vec(), b"ab\0cd\0".to_vec());
    let e = CText::new("\0").unwrap_err();
    assert_eq!(e.nul_position(), 0);
    let e = CText::new("\u{e9}\0").unwrap_err();
    assert_eq!(e.nul_position(), 2);
}

#[test]
fn decimal_text_writes_numbers() {
    assert_eq!(decimal_text(0), "0");
    assert_eq!(decimal_text(7), "7");
    assert_eq!(decimal_text(9), "9");
    assert_eq!(decimal_text(10), "10");
    assert_eq!(decimal_text(101), "101");
    assert_eq!(decimal_text(1234567890), "1234567890");
    assert_eq!(decimal_text(usize::MAX), usize::MAX.to_string());
}

#[test]
fn messages_begin_with_their_kind() {
    assert_eq!(
        interpreter_message("a.jsonnet:1:7-10 Unknown variable: bar"),
        "go-jsonnet returned error: a.jsonnet:1:7-10 Unknown variable: bar"
    );
    assert_eq!(interpreter_message(""), "go-jsonnet returned error: ");
    assert_eq!(
        nul_message(12),
        "C-string nul error: nul byte found in provided data at position: 12"
    );
    assert_eq!(
        serde_message("expected value at line 1 column 1"),
        "Serde error: expected value at line 1 column 1"
    );
}

#[test]
fn error_of_the_interpreter_shows_its_message() {
    let e = VmError::GoJsonnetError { message: "RUNTIME ERROR: boom".to_owned() };
    assert_eq!(e.to_string(), "go-jsonnet returned error: RUNTIME ERROR: boom");
}

#[test]
fn error_of_a_refused_string_shows_the_position() {
    let inner = CText::new("foo\0bar").unwrap_err();
    let e = VmError::from(inner);
    assert!(matches!(e, VmError::NulError { .. }));
    assert_eq!(
        e.to_string(),
        "C-string nul error: nul byte found in provided data at position: 3"
    );
}

#[test]
fn error_of_unreadable_json_shows_what_the_reader_said() {
    let inner = serde_json::from_str::<bool>("x").unwrap_err();
    let said = inner.to_string();
    assert_eq!(said, "expected value at line 1 column 1");
    let e = VmError::from(inner);
    assert!(matches!(e, VmError::SerdeError { .. }));
    assert_eq!(e.to_string(), "Serde error: expected value at line 1 column 1");
    assert_ne!(e.to_string(), "Serde error: ");
}

#[test]
fn error_of_a_wrong_type_shows_what_the_reader_said() {
    let inner = serde_json::from_str::<Vec<i32>>("{\"foo\": 3}").unwrap_err();
    let said = inner.to_string();
    let e: Result<Vec<i32>, VmError> = decoded(Err(inner));
    let e = e.unwrap_err();
    assert_eq!(e.to_string(), format!("Serde error: {}", said));
    assert!(e.to_string().contains("line 1 column"));
}

#[test]
fn text_maps_the_refusal_to_an_error() {
    assert_eq!(text("v").unwrap().as_bytes_with_nul(), b"v\0");
    match text("a\0") {
        Err(VmError::NulError { inner }) => assert_eq!(inner.nul_position(), 1),
        other => panic!("unexpected: {:?}", other),
    }
}

#[test]
fn text_pair_makes_both_ready() {
    let (key, val) = text_pair("v", "true").unwrap();
    assert_eq!(key.as_bytes_with_nul(), b"v\0");
    assert_eq!(val.as_bytes_with_nul(), b"true\0");
}

#[test]
fn text_pair_speaks_of_the_first_refused() {
    match text_pair("fi\0le", "co\0de") {
        Err(VmError::NulError { inner }) => {
            assert_eq!(inner.nul_position(), 2);
            assert_eq!(inner.into_vec(), b"fi\0le".to_vec());
        }
        other => panic!("unexpected: {:?}", other),
    }
    match text_pair("file", "code\0") {
        Err(VmError::NulError { inner }) => {
            assert_eq!(inner.nul_position(), 4);
            assert_eq!(inner.into_vec(), b"code\0".to_vec());
        }
        other => panic!("unexpected: {:?}", other),
    }
}

#[test]
fn outcome_with_status_zero_is_the_result() {
    let r = outcome(0, "{\n   \"foo\": 3\n}\n".to_owned());
    assert_eq!(r.unwrap(), "{\n   \"foo\": 3\n}\n");
    let r = outcome(0, String::new());
    assert_eq!(r.unwrap(), "");
}

#[test]
fn outcome_with_another_status_is_the_failure() {
    for status in [1, 2, -1, i32::MAX, i32::MIN] {
        match outcome(status, "boom".to_owned()) {
            Err(VmError::GoJsonnetError { message }) => assert_eq!(message, "boom"),
            other => panic!("unexpected: {:?}", other),
        }
    }
}

#[test]
fn decoded_keeps_a_value() {
    let parsed = serde_json::from_str::<Vec<i32>>("[3]");
    assert_eq!(decoded(parsed).unwrap(), vec![3]);
}

#[test]
fn decoded_keeps_the_reader_error() {
    let parsed = serde_json::from_str::<i32>("[3]");
    match decoded(parsed) {
        Err(VmError::SerdeError { inner }) => assert!(inner.is_data()),
        other => panic!("unexpected: {:?}", other),
    }
    let parsed = serde_json::from_str::<bool>("tru");
    match decoded(parsed) {
        Err(VmError::SerdeError { inner }) => assert!(inner.is_eof()),
        other => panic!("unexpected: {:?}", other),
    }
}
