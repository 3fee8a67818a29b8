use ferro_code::json::Json;
use ferro_code::json_text::{parse_json, write_json, write_json_line, write_json_pretty};
use ferro_code::preflight::{
    accept_sdk_message, backend_failure, ensure_sdk_supports_required_methods, judge_requests,
    judge_step, lag_notice, required_requests, unavailable_text,
};
use ferro_code::protocol::{
    answer_sdk_request, decode_line, encode_message, make_backend_notice, route_sdk_message,
    turn_params, SdkOutcome, SdkStep,
};

fn json(text: &str) -> Json {
    parse_json(text.as_bytes()).unwrap()
}

#[test]
fn protocol_messages_are_single_jsonl_records() {
    let message = json(r#"{"method":"turn/start","id":7,"params":{"text":"hello\nworld"}}"#);
    let encoded = encode_message(&message).unwrap();
    assert_eq!(encoded.iter().filter(|byte| **byte == b'\n').count(), 1);
    assert_eq!(parse_json(&encoded[..encoded.len() - 1]).unwrap(), message);
}

#[test]
fn lib_protocol_messages_are_single_jsonl_records() {
    let message = json(r#"{"method":"turn/start","id":7,"params":{"text":"hello\nworld"}}"#);
    let encoded = encode_message(&message).unwrap();
    assert_eq!(encoded.iter().filter(|byte| **byte == b'\n').count(), 1);
    assert_eq!(parse_json(&encoded[..encoded.len() - 1]).unwrap(), message);
}

#[test]
fn members_are_written_in_key_order() {
    let value = Json::Object(vec![
        ("b".into(), Json::Unsigned(1)),
        ("a".into(), Json::Array(vec![Json::Null, Json::Bool(true)])),
        ("b".into(), Json::Negative(-2)),
    ]);
    assert_eq!(write_json(&value), br#"{"a":[null,true],"b":-2}"#);
    assert_eq!(write_json_line(&value), r#"{"a":[null,true],"b":-2}"#);
    assert_eq!(
        write_json_pretty(&value),
        "{\n  \"a\": [\n    null,\n    true\n  ],\n  \"b\": -2\n}"
    );
}

#[test]
fn numbers_that_are_no_integers_are_kept() {
    let value = json("[1.5, 2e3, -1, 18446744073709551615]");
    assert_eq!(write_json(&value), b"[1.5,2000.0,-1,18446744073709551615]");
}

#[test]
fn blank_lines_hold_no_message() {
    assert_eq!(decode_line("  \t"), None);
    assert_eq!(decode_line(" {\"id\":1} "), Some(json(r#"{"id":1}"#)));
    let error = decode_line("nonsense").unwrap();
    assert_eq!(error.text_at("method"), Some("backend/protocolError"));
    let text = error.text_at2("params", "message").unwrap();
    assert!(text.ends_with(": nonsense"));
    assert!(text.len() > ": nonsense".len());
}

#[test]
fn notices_carry_a_method_and_a_message() {
    let notice = make_backend_notice("backend/exited", "gone");
    assert_eq!(
        write_json_line(&notice),
        r#"{"method":"backend/exited","params":{"message":"gone"}}"#
    );
    assert_eq!(
        write_json_line(&lag_notice(3)),
        r#"{"method":"backend/protocolError","params":{"message":"Codex SDK event queue dropped 3 messages"}}"#
    );
}

#[test]
fn sandbox_becomes_a_policy_of_the_turn() {
    let params = turn_params(json(r#"{"threadId":"t","sandbox":"read-only"}"#)).unwrap();
    assert_eq!(params.text_at2("sandboxPolicy", "type"), Some("readOnly"));
    assert!(params.get("sandbox").is_none());
    let refused = turn_params(json(r#"{"threadId":"t","sandbox":"moon"}"#));
    assert!(refused.is_err());
}

#[test]
fn embedded_client_answers_the_handshake_itself() {
    match route_sdk_message(&json(r#"{"id":1,"method":"initialize"}"#), "unix", "linux") {
        SdkStep::Reply(message) => {
            assert_eq!(message.u64_at("id"), Some(1));
            assert_eq!(message.text_at2("result", "platformOs"), Some("linux"));
        }
        other => panic!("unexpected step: {other:?}"),
    }
}

#[test]
fn failed_requests_are_answered_with_an_error() {
    let answer = answer_sdk_request(Json::Unsigned(4), SdkOutcome::Failed("closed".into()));
    assert_eq!(answer.u64_at("id"), Some(4));
    assert_eq!(
        answer.text_at2("error", "message"),
        Some("Codex SDK request failed: closed")
    );
    assert_eq!(
        answer.get("error").unwrap().i64_at("code"),
        Some(-32000)
    );
}

#[test]
fn required_requests_name_every_method_once() {
    let methods: Vec<String> = required_requests()
        .iter()
        .map(|request| request.text_at("method").unwrap().to_owned())
        .collect();
    assert_eq!(
        methods,
        [
            "account/read",
            "account/rateLimits/read",
            "account/rateLimitResetCredit/consume",
            "model/list",
            "thread/start",
            "turn/start",
            "turn/interrupt"
        ]
    );
    assert_eq!(
        unavailable_text(&required_requests()[3], "no"),
        "required method model/list is unavailable: no"
    );
    assert_eq!(
        unavailable_text(&Json::Null, "no"),
        "required method unknown is unavailable: no"
    );
    assert_eq!(
        backend_failure("a", "b"),
        "Could not start the Codex Rust SDK (a); CLI fallback also failed (b)"
    );
}

#[test]
fn an_older_protocol_does_not_reset_credits() {
    let error = ensure_sdk_supports_required_methods().unwrap_err();
    assert!(error.starts_with(
        "required method account/rateLimitResetCredit/consume is unavailable: unknown variant"
    ));
}

#[test]
fn the_first_refused_request_is_named() {
    let requests = required_requests();
    let mut refusals: Vec<Option<String>> = requests.iter().map(|_| None).collect();
    assert_eq!(judge_requests(&requests, &refusals), Ok(()));
    refusals[4] = Some("no".into());
    refusals[6] = Some("never".into());
    assert_eq!(
        judge_requests(&requests, &refusals),
        Err("required method thread/start is unavailable: no".into())
    );
}

#[test]
fn messages_to_the_embedded_client_are_checked() {
    let accept = |text: &str| accept_sdk_message(&json(text), "unix", "linux");
    assert!(matches!(
        accept(r#"{"id":5,"method":"model/list","params":{"limit":100}}"#),
        Ok(SdkStep::Request(Json::Unsigned(5)))
    ));
    assert!(accept(r#"{"id":5,"method":"moon/land","params":{}}"#)
        .unwrap_err()
        .starts_with("Codex SDK does not support this request: unknown variant `moon/land`"));
    assert!(accept(r#"{"method":"moon/landed"}"#)
        .unwrap_err()
        .starts_with("Codex SDK does not support this notification: unknown variant"));
    assert_eq!(accept(r#"{"method":"initialized"}"#), Ok(SdkStep::Skip));
    assert!(matches!(
        accept(r#"{"id":"a","result":{"decision":"accept"}}"#),
        Ok(SdkStep::Resolve(_, _))
    ));
    assert_eq!(
        accept(r#"{"id":null,"result":{}}"#),
        Err("Invalid Codex SDK response id: data did not match any variant of untagged enum RequestId".into())
    );
    assert!(matches!(
        accept(r#"{"id":-3,"error":{"code":1,"message":"no"}}"#),
        Ok(SdkStep::Reject(_, _))
    ));
    assert!(accept(r#"{"id":1}"#)
        .unwrap_err()
        .starts_with("Invalid Codex SDK error response: "));
    assert!(accept(r#"{"id":1.0,"result":{}}"#).is_err());
    assert!(accept(r#"{"id":9223372036854775808,"result":{}}"#).is_err());
    assert_eq!(
        judge_step(SdkStep::Notify, Some("no".into()), None),
        Err("Codex SDK does not support this notification: no".into())
    );
}
