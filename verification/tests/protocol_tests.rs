use distributed_calculator::protocol::Protocol;

#[test]
fn from_bytes_operation() {
    let proto = Protocol::from_bytes(b"OP ADD 5\n");
    match proto {
        Protocol::Operation(args) => assert_eq!(args, "ADD 5"),
        _ => assert_eq!(proto.to_text(), "OP ADD 5\n"),
    }
}

#[test]
fn test_from_bytes_invalid_utf8() {
    let proto = Protocol::from_bytes(&[0xFF, 0xFF, 0xFF]);
    match proto {
        Protocol::SynthaxError(msg) => assert!(msg.contains("invalid utf-8")),
        _ => assert_eq!(proto.to_text(), "invalid utf-8"),
    }
}

#[test]
fn from_bytes_truncated_character_reports_incomplete_input() {
    let proto = Protocol::from_bytes(&[0xC2]);
    match proto {
        Protocol::SynthaxError(msg) => {
            assert_eq!(msg, "incomplete utf-8 byte sequence from index 0");
        },
        _ => panic!("expected a syntax error"),
    }
}

#[test]
fn from_bytes_invalid_byte_reports_sequence_and_index() {
    let proto = Protocol::from_bytes(&[0x41, 0xFF, 0x41]);
    match proto {
        Protocol::SynthaxError(msg) => {
            assert_eq!(msg, "invalid utf-8 sequence of length 1 from index 1");
        },
        _ => panic!("expected a syntax error"),
    }
}

#[test]
fn token_text_restores_the_received_line() {
    assert_eq!(Protocol::from_bytes(b"ERROR \"x\"\n").token_text(), "ERROR \"x\"");
    assert_eq!(Protocol::from_bytes(b"ERROR plain text\n").token_text(), "ERROR plain text");
    assert_eq!(Protocol::from_bytes(b"VALUE 9\n").token_text(), "VALUE 9");
    assert_eq!(Protocol::from_bytes(b"OK\n").token_text(), "OK");
}

#[test]
fn test_operation_to_bytes_and_display() {
    let proto = Protocol::Operation("ADD 5".to_string());
    assert_eq!(proto.to_text(), "OPERATION ADD 5\n");
    assert_eq!(proto.to_bytes(), b"OPERATION ADD 5\n".to_vec());
}

#[test]
fn from_bytes_operation_request() {
    let proto = Protocol::from_bytes(b"OPERATION + 1\n");
    assert!(matches!(proto, Protocol::Operation(args) if args == "+ 1"));
}

#[test]
fn from_bytes_get() {
    assert!(matches!(Protocol::from_bytes(b"GET\n"), Protocol::Get));
    assert!(matches!(Protocol::from_bytes(b"GET"), Protocol::Get));
}

#[test]
fn from_bytes_ok() {
    assert!(matches!(Protocol::from_bytes(b"OK\n"), Protocol::Okay));
}

#[test]
fn from_bytes_value() {
    let proto = Protocol::from_bytes(b"VALUE 42\n");
    assert!(matches!(proto, Protocol::Value(v) if v == "42"));
}

#[test]
fn from_bytes_error_keeps_quotes() {
    let proto = Protocol::from_bytes(b"ERROR \"some reason\"\n");
    assert!(matches!(proto, Protocol::ErrorOperation(t) if t == "\"some reason\""));
}

#[test]
fn from_bytes_error_without_arguments() {
    let proto = Protocol::from_bytes(b"ERROR\n");
    assert!(matches!(proto, Protocol::ErrorOperation(t) if t.is_empty()));
}

#[test]
fn from_bytes_wrong_arity_is_syntax_error() {
    assert!(matches!(
        Protocol::from_bytes(b"GET 1\n"),
        Protocol::SynthaxError(t) if t == "GET 1"
    ));
    assert!(matches!(
        Protocol::from_bytes(b"OPERATION + 1 2\n"),
        Protocol::SynthaxError(t) if t == "OPERATION + 1 2"
    ));
    assert!(matches!(
        Protocol::from_bytes(b"VALUE 1 2\n"),
        Protocol::SynthaxError(t) if t == "VALUE 1 2"
    ));
}

#[test]
fn from_bytes_empty_line_is_syntax_error() {
    assert!(matches!(
        Protocol::from_bytes(b""),
        Protocol::SynthaxError(t) if t.is_empty()
    ));
}

#[test]
fn from_bytes_collapses_whitespace_runs() {
    let proto = Protocol::from_bytes(b"OPERATION   +\t9\n");
    assert!(matches!(proto, Protocol::Operation(args) if args == "+ 9"));
}

#[test]
fn decode_encode_round_trip_on_canonical_messages() {
    let cases: Vec<Vec<u8>> = vec![
        b"OPERATION + 1\n".to_vec(),
        b"GET\n".to_vec(),
        b"OK\n".to_vec(),
        b"VALUE 255\n".to_vec(),
    ];
    for line in cases {
        let decoded = Protocol::from_bytes(&line);
        assert_eq!(decoded.to_bytes(), line);
    }
}

#[test]
fn encode_of_every_variant_ends_in_newline() {
    let messages = vec![
        Protocol::Operation("+ 1".to_string()),
        Protocol::Get,
        Protocol::Okay,
        Protocol::ErrorOperation("oops".to_string()),
        Protocol::Value("7".to_string()),
        Protocol::SynthaxError("hola".to_string()),
    ];
    for m in messages {
        let bytes = m.to_bytes();
        assert_eq!(bytes.last(), Some(&b'\n'));
    }
}

#[test]
fn encode_error_adds_quotes() {
    let m = Protocol::ErrorOperation("division by zero".to_string());
    assert_eq!(m.to_text(), "ERROR \"division by zero\"\n");
}

#[test]
fn body_text_has_no_newline() {
    assert_eq!(Protocol::Get.body_text(), "GET");
    assert_eq!(Protocol::Okay.body_text(), "OK");
    assert_eq!(Protocol::SynthaxError("hola".to_string()).body_text(), "hola");
}
