//! The core's behaviour on concrete envelopes: registration, dispatch,
//! the codec round trips, and the wire text.

use minirpc::client::{expect_string_result, CallError};
use minirpc::codec::{
    decode_request, decode_response, encode_request, encode_response, DecodeError,
};
use minirpc::dispatch::dispatch;
use minirpc::envelope::{id_eq, request_eq, response_eq, ErrorObject, Request, RequestId, Response};
use minirpc::json::{json_eq, JsonMember, JsonValue};
use minirpc::registry::{Handler, Registry, SetupError};
use minirpc::text::{json_to_text, request_to_text, response_to_text};
use minirpc::{INTERNAL_ERROR_CODE, METHOD_NOT_FOUND_CODE};

fn lo_handler() -> Handler {
    Handler::Constant(JsonValue::Str(String::from("lo")))
}

fn demo_params() -> Vec<JsonValue> {
    vec![JsonValue::Int(1), JsonValue::Int(2), JsonValue::Int(3)]
}

fn hello_registry() -> Registry {
    let mut reg = Registry::new();
    reg.register(String::from("say_hello"), lo_handler()).unwrap();
    reg
}

fn demo_request(method: &str, id: i64) -> Request {
    Request { id: RequestId::Num(id), method: String::from(method), params: demo_params() }
}

#[test]
fn registering_twice_fails_with_duplicate_method() {
    let mut reg = Registry::new();
    assert!(reg.register(String::from("say_hello"), lo_handler()).is_ok());
    // the same name again, with different handler content
    let second = reg.register(
        String::from("say_hello"),
        Handler::Constant(JsonValue::Str(String::from("other"))),
    );
    assert_eq!(second.unwrap_err(), SetupError::DuplicateMethod);
    // and once more with a failing handler: still the same error
    let third = reg.register(String::from("say_hello"), Handler::Failing(String::from("boom")));
    assert_eq!(third.unwrap_err(), SetupError::DuplicateMethod);
    // a fresh name is still accepted afterwards
    assert!(reg.register(String::from("say_goodbye"), lo_handler()).is_ok());
    assert!(reg.contains(&String::from("say_hello")));
    assert!(reg.contains(&String::from("say_goodbye")));
    assert!(!reg.contains(&String::from("say_nothing")));
}

#[test]
fn unknown_method_is_method_not_found_with_id_echoed() {
    let reg = hello_registry();
    let req = demo_request("say_goodbye", 42);
    let resp = dispatch(&reg, &req);
    match resp {
        Response::Failure { id, error } => {
            assert!(id_eq(&id, &RequestId::Num(42)));
            assert_eq!(error.code, METHOD_NOT_FOUND_CODE);
            assert_eq!(error.message, "Method not found");
        }
        Response::Success { .. } => panic!("an unregistered method must not succeed"),
    }
}

#[test]
fn successful_call_returns_lo_under_the_request_id() {
    let reg = hello_registry();
    let req = demo_request("say_hello", 7);
    let resp = dispatch(&reg, &req);
    match resp {
        Response::Success { id, result } => {
            assert!(id_eq(&id, &RequestId::Num(7)));
            assert!(json_eq(&result, &JsonValue::Str(String::from("lo"))));
        }
        Response::Failure { .. } => panic!("a registered method must succeed"),
    }
}

#[test]
fn string_ids_are_echoed_too() {
    let reg = hello_registry();
    let req = Request {
        id: RequestId::Str(String::from("first")),
        method: String::from("say_hello"),
        params: Vec::new(),
    };
    let resp = dispatch(&reg, &req);
    match resp {
        Response::Success { id, result: _ } => {
            assert!(id_eq(&id, &RequestId::Str(String::from("first"))));
        }
        Response::Failure { .. } => panic!("a registered method must succeed"),
    }
}

#[test]
fn failing_handler_reports_internal_error_without_its_text() {
    let mut reg = Registry::new();
    reg.register(String::from("broken"), Handler::Failing(String::from("secret detail")))
        .unwrap();
    let resp = dispatch(&reg, &demo_request("broken", 9));
    match resp {
        Response::Failure { id, error } => {
            assert!(id_eq(&id, &RequestId::Num(9)));
            assert_eq!(error.code, INTERNAL_ERROR_CODE);
            assert_eq!(error.message, "Internal error");
            assert!(!error.message.contains("secret"));
        }
        Response::Success { .. } => panic!("a failing handler must not succeed"),
    }
}

#[test]
fn identical_calls_get_identical_responses() {
    let reg = hello_registry();
    let first = dispatch(&reg, &demo_request("say_hello", 3));
    let second = dispatch(&reg, &demo_request("say_hello", 3));
    assert!(response_eq(&first, &second));
}

#[test]
fn request_round_trip_preserves_the_envelope() {
    let req = demo_request("say_hello", 5);
    let encoded = encode_request(&req);
    let back = decode_request(&encoded).unwrap();
    assert!(request_eq(&req, &back));
}

#[test]
fn request_round_trip_with_string_id_and_nested_params() {
    let req = Request {
        id: RequestId::Str(String::from("a-b")),
        method: String::from("say_hello"),
        params: vec![
            JsonValue::Null,
            JsonValue::Bool(true),
            JsonValue::Arr(vec![JsonValue::Int(-1), JsonValue::Str(String::from("x"))]),
            JsonValue::Obj(vec![JsonMember {
                key: String::from("k"),
                value: JsonValue::Int(0),
            }]),
        ],
    };
    let back = decode_request(&encode_request(&req)).unwrap();
    assert!(request_eq(&req, &back));
}

#[test]
fn response_round_trips_both_shapes() {
    let ok = Response::Success {
        id: RequestId::Num(1),
        result: JsonValue::Str(String::from("lo")),
    };
    let back = decode_response(&encode_response(&ok)).unwrap();
    assert!(response_eq(&ok, &back));

    let failed = Response::Failure {
        id: RequestId::Num(2),
        error: ErrorObject { code: METHOD_NOT_FOUND_CODE, message: String::from("Method not found") },
    };
    let back = decode_response(&encode_response(&failed)).unwrap();
    assert!(response_eq(&failed, &back));
}

#[test]
fn decode_rejects_wrong_shapes() {
    assert_eq!(decode_request(&JsonValue::Null).unwrap_err(), DecodeError::Envelope);
    assert_eq!(
        decode_request(&JsonValue::Obj(Vec::new())).unwrap_err(),
        DecodeError::Envelope
    );
    // right keys, wrong shape under "params"
    let req = demo_request("say_hello", 1);
    let mut encoded = encode_request(&req);
    if let JsonValue::Obj(members) = &mut encoded {
        members[2].value = JsonValue::Int(0);
    }
    assert_eq!(decode_request(&encoded).unwrap_err(), DecodeError::Envelope);
    assert_eq!(decode_response(&JsonValue::Bool(false)).unwrap_err(), DecodeError::Envelope);
}

#[test]
fn string_results_are_extracted_and_errors_surfaced() {
    let ok = Response::Success { id: RequestId::Num(1), result: JsonValue::Str(String::from("lo")) };
    assert_eq!(expect_string_result(&ok).unwrap(), "lo");

    let wrong = Response::Success { id: RequestId::Num(1), result: JsonValue::Int(3) };
    match expect_string_result(&wrong) {
        Err(CallError::Decode(DecodeError::WrongType)) => {}
        _ => panic!("a non-string result must be a decode error"),
    }

    let failed = Response::Failure {
        id: RequestId::Num(1),
        error: ErrorObject { code: -7, message: String::from("kept intact") },
    };
    match expect_string_result(&failed) {
        Err(CallError::Rpc { code, message }) => {
            assert_eq!(code, -7);
            assert_eq!(message, "kept intact");
        }
        _ => panic!("an error envelope must surface as an rpc error"),
    }
}

#[test]
fn serving_an_encoded_call_gives_the_encoded_response() {
    let reg = hello_registry();
    let wire_request = encode_request(&demo_request("say_hello", 11));
    let wire_response = minirpc::dispatch::serve_json(&reg, &wire_request).unwrap();
    let resp = decode_response(&wire_response).unwrap();
    match resp {
        Response::Success { id, result } => {
            assert!(id_eq(&id, &RequestId::Num(11)));
            assert!(json_eq(&result, &JsonValue::Str(String::from("lo"))));
        }
        Response::Failure { .. } => panic!("the registered method must succeed"),
    }
    // a value that is no call envelope is refused before dispatch
    let refused = minirpc::dispatch::serve_json(&reg, &JsonValue::Int(3));
    assert_eq!(refused.unwrap_err(), DecodeError::Envelope);
}

#[test]
fn request_text_is_exact_json() {
    let req = demo_request("say_hello", 1);
    assert_eq!(
        request_to_text(&req),
        "{\"id\":1,\"method\":\"say_hello\",\"params\":[1,2,3]}"
    );
}

#[test]
fn response_text_is_exact_json() {
    let ok = Response::Success { id: RequestId::Num(1), result: JsonValue::Str(String::from("lo")) };
    assert_eq!(response_to_text(&ok), "{\"id\":1,\"result\":\"lo\"}");

    let failed = Response::Failure {
        id: RequestId::Num(4),
        error: ErrorObject { code: METHOD_NOT_FOUND_CODE, message: String::from("Method not found") },
    };
    assert_eq!(
        response_to_text(&failed),
        "{\"id\":4,\"error\":{\"code\":-32601,\"message\":\"Method not found\"}}"
    );
}

#[test]
fn integers_render_in_decimal_with_sign() {
    assert_eq!(json_to_text(&JsonValue::Int(0)), "0");
    assert_eq!(json_to_text(&JsonValue::Int(-1)), "-1");
    assert_eq!(json_to_text(&JsonValue::Int(1234567890)), "1234567890");
    assert_eq!(json_to_text(&JsonValue::Int(i64::MAX)), "9223372036854775807");
    assert_eq!(json_to_text(&JsonValue::Int(i64::MIN)), "-9223372036854775808");
}

#[test]
fn strings_escape_quotes_backslashes_and_controls() {
    let v = JsonValue::Str(String::from("a\"b\\c\nd"));
    assert_eq!(json_to_text(&v), "\"a\\\"b\\\\c\\u000ad\"");
    let plain = JsonValue::Str(String::from("héllo"));
    assert_eq!(json_to_text(&plain), "\"héllo\"");
}

#[test]
fn empty_collections_render() {
    assert_eq!(json_to_text(&JsonValue::Arr(Vec::new())), "[]");
    assert_eq!(json_to_text(&JsonValue::Obj(Vec::new())), "{}");
    assert_eq!(json_to_text(&JsonValue::Null), "null");
    assert_eq!(json_to_text(&JsonValue::Bool(true)), "true");
    assert_eq!(json_to_text(&JsonValue::Bool(false)), "false");
}
