use motarem::axis::Num;
use motarem::protocol::{parse_command, serialize_response, ClientCommand, ProtocolError, ServerResponse};

#[test]
fn test_parse_move_command() {
    let json = r#"{"type": "move", "controller": "test", "axis": "X", "target": 100.0}"#;
    let cmd = parse_command(json).unwrap();

    match cmd {
        ClientCommand::Move { controller, axis, target, .. } => {
            assert_eq!(controller, "test");
            assert_eq!(axis, "X");
            assert_eq!(target.text().parse::<f64>().unwrap(), 100.0);
        }
        _ => panic!("Expected Move command"),
    }
}

#[test]
fn test_serialize_success_response() {
    let response = ServerResponse::success(
        Some("test-id".to_string()),
        "{\"result\":\"ok\"}".to_string(),
    );

    let json = serialize_response(&response).unwrap();
    assert!(json.contains("success"));
    assert!(json.contains("test-id"));
}

#[test]
fn test_serialize_error_response() {
    let response = ServerResponse::error(
        Some("test-id".to_string()),
        "Something went wrong".to_string(),
    );

    let json = serialize_response(&response).unwrap();
    assert!(json.contains("error"));
    assert!(json.contains("Something went wrong"));
}

#[test]
fn test_serialize_error_with_code() {
    let response = ServerResponse::error_with_code(
        None,
        "boom".to_string(),
        "E42".to_string(),
    );
    let json = serialize_response(&response).unwrap();
    assert_eq!(json, "{\"status\":\"error\",\"message\":\"boom\",\"code\":\"E42\"}");
}

#[test]
fn test_serialize_escapes_strings() {
    let response = ServerResponse::error(
        Some("a\"b".to_string()),
        "line\nbreak and \\ quote \"".to_string(),
    );
    let json = serialize_response(&response).unwrap();
    assert_eq!(
        json,
        "{\"status\":\"error\",\"id\":\"a\\\"b\",\"message\":\"line\\nbreak and \\\\ quote \\\"\"}"
    );
}

#[test]
fn test_parse_invalid_json() {
    match parse_command("this is not json") {
        Err(ProtocolError::InvalidJson(_)) => {}
        _ => panic!("expected an invalid JSON error"),
    }
}

#[test]
fn test_parse_missing_type() {
    match parse_command("{\"controller\":\"c1\"}") {
        Err(ProtocolError::MissingField(f)) => assert_eq!(f, "type"),
        _ => panic!("expected a missing type field"),
    }
}

#[test]
fn test_parse_unsupported_command() {
    match parse_command("{\"type\":\"warp\"}") {
        Err(ProtocolError::UnsupportedCommand(c)) => assert_eq!(c, "warp"),
        _ => panic!("expected an unsupported command error"),
    }
}

#[test]
fn test_parse_missing_controller() {
    match parse_command("{\"type\":\"stop\",\"axis\":\"X\"}") {
        Err(ProtocolError::MissingField(f)) => assert_eq!(f, "controller"),
        _ => panic!("expected a missing controller field"),
    }
}

#[test]
fn test_parse_move_with_params() {
    let json = r#"{"type":"move","controller":"c1","axis":"X","target":10.5,
        "params":{"velocity":10.0,"custom":{"torque":3.5}},"id":"m1"}"#;
    // one JSON object per line on the wire; the parser itself accepts any JSON text
    let json = json.replace('\n', " ");
    let cmd = parse_command(&json).unwrap();
    match cmd {
        ClientCommand::Move { target, params, id, .. } => {
            assert_eq!(target.text(), "10.5");
            assert_eq!(id.as_deref(), Some("m1"));
            let p = params.expect("params should be present");
            assert_eq!(p.velocity.as_ref().map(Num::text), Some("10.0"));
            assert!(p.acceleration.is_none());
            assert_eq!(p.custom.len(), 1);
            assert_eq!(p.custom[0].0, "torque");
            assert_eq!(p.custom[0].1.text(), "3.5");
        }
        _ => panic!("Expected Move command"),
    }
}

#[test]
fn test_parse_ping_and_list() {
    match parse_command("{\"type\":\"ping\",\"id\":\"p1\"}").unwrap() {
        ClientCommand::Ping { id } => assert_eq!(id.as_deref(), Some("p1")),
        _ => panic!("Expected Ping"),
    }
    match parse_command("{\"type\":\"list_controllers\"}").unwrap() {
        ClientCommand::ListControllers { id } => assert!(id.is_none()),
        _ => panic!("Expected ListControllers"),
    }
}

#[test]
fn test_protocol_error_text() {
    assert_eq!(
        ProtocolError::MissingField("axis".to_string()).text(),
        "Missing required field: axis"
    );
    assert_eq!(
        ProtocolError::UnsupportedCommand("warp".to_string()).text(),
        "Unsupported command: warp"
    );
}
