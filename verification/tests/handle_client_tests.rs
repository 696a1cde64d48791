use distributed_calculator::calculator::Calculator;
use distributed_calculator::calculator::SharedCalculator;
use distributed_calculator::handle_client::apply_operation;
use distributed_calculator::handle_client::get_value;
use distributed_calculator::handle_client::handle_get_message;
use distributed_calculator::handle_client::handle_message;
use distributed_calculator::handle_client::handle_operation_message;
use distributed_calculator::handle_client::send_protocol;
use distributed_calculator::operation::Operation;
use distributed_calculator::protocol::Protocol;

#[test]
fn get_value_of_calculator() {
    let calculator = SharedCalculator::new();
    let value = get_value(&calculator).unwrap();

    assert_eq!(value, 0);
}

#[test]
fn send_get_message() {
    let response = Protocol::Value("0".to_string()).to_text();
    let calculator = SharedCalculator::new();

    let output = handle_get_message(&calculator).unwrap().to_text();

    assert_eq!(output, response);
}

#[test]
fn apply_operation_success() {
    let calculator = SharedCalculator::new();
    let op = Operation::Add(5);

    apply_operation(&calculator, op).unwrap();

    assert_eq!(calculator.read(), 5);
}

#[test]
fn handle_operation_message_ok() {
    let calculator = SharedCalculator::new();
    let args = "+ 5".to_string();
    let response = Protocol::Okay;

    let output = handle_operation_message(&calculator, args).unwrap();

    assert_eq!(output.to_text(), response.to_text());
    assert_eq!(calculator.read(), 5);
}

#[test]
fn handle_operation_message_error() {
    let calculator = SharedCalculator::new();
    let args = "% 5".to_string();
    let response =
        Protocol::ErrorOperation(("parsing error: unknown operation: %").to_string()).to_text();

    let output = handle_operation_message(&calculator, args).unwrap();

    assert_eq!(output.to_text(), response);
    assert_eq!(calculator.read(), 0);
}

#[test]
fn test_send_protocol() {
    let mut buffer: Vec<u8> = Vec::new();
    let protocol = Protocol::Okay;
    let response = Protocol::Okay.to_text();

    send_protocol(protocol, &mut buffer).unwrap();
    let output = String::from_utf8(buffer).unwrap();

    assert_eq!(output, response);
}

#[test]
fn scenario_operation_then_get() {
    let mut calc = Calculator::new();

    let first = calc.respond(&Protocol::from_bytes(b"OPERATION + 1\n"));
    assert_eq!(first.to_text(), "OK\n");

    let second = calc.respond(&Protocol::from_bytes(b"GET\n"));
    assert_eq!(second.to_text(), "VALUE 1\n");
}

#[test]
fn scenario_operand_out_of_range_leaves_state_alone() {
    let mut calc = Calculator::new();

    let first = calc.respond(&Protocol::from_bytes(b"OPERATION + 300\n"));
    match first {
        Protocol::ErrorOperation(reason) => {
            assert_eq!(reason, "parsing error: invalid integer: number too large to fit in target type");
        },
        _ => panic!("expected an error response"),
    }

    let second = calc.respond(&Protocol::from_bytes(b"GET\n"));
    assert_eq!(second.to_text(), "VALUE 0\n");
}

#[test]
fn division_by_zero_is_reported_and_harmless() {
    let mut calc = Calculator::new();
    calc.apply(Operation::Add(9));

    let first = calc.respond(&Protocol::from_bytes(b"OPERATION / 0\n"));
    match first {
        Protocol::ErrorOperation(reason) => assert!(reason.contains("division by zero")),
        _ => panic!("expected an error response"),
    }

    let second = calc.respond(&Protocol::from_bytes(b"GET\n"));
    assert_eq!(second.to_text(), "VALUE 9\n");
}

#[test]
fn unknown_operator_is_reported_and_harmless() {
    let mut calc = Calculator::new();
    calc.apply(Operation::Add(3));

    let first = calc.respond(&Protocol::from_bytes(b"OPERATION % 5\n"));
    match first {
        Protocol::ErrorOperation(reason) => {
            assert!(reason.contains("unknown operation: %"));
        },
        _ => panic!("expected an error response"),
    }

    let second = calc.respond(&Protocol::from_bytes(b"GET\n"));
    assert_eq!(second.to_text(), "VALUE 3\n");
}

#[test]
fn malformed_line_keeps_connection_usable() {
    let mut calc = Calculator::new();

    let first = calc.respond(&Protocol::from_bytes(b"hola\n"));
    match first {
        Protocol::ErrorOperation(reason) => assert_eq!(reason, "unexpected message: hola"),
        _ => panic!("expected an error response"),
    }

    let second = calc.respond(&Protocol::from_bytes(b"GET\n"));
    assert_eq!(second.to_text(), "VALUE 0\n");
}

#[test]
fn two_gets_answer_identically() {
    let mut calc = Calculator::new();
    calc.apply(Operation::Add(77));

    let first = calc.respond(&Protocol::from_bytes(b"GET\n")).to_text();
    let second = calc.respond(&Protocol::from_bytes(b"GET\n")).to_text();

    assert_eq!(first, second);
    assert_eq!(first, "VALUE 77\n");
}

#[test]
fn replaying_wire_lines_equals_folding_the_arithmetic() {
    let lines: Vec<&[u8]> = vec![
        b"OPERATION + 250\n",
        b"OPERATION + 10\n",
        b"OPERATION * 3\n",
        b"OPERATION - 5\n",
        b"OPERATION / 2\n",
    ];
    let ops = vec![
        Operation::Add(250),
        Operation::Add(10),
        Operation::Mul(3),
        Operation::Sub(5),
        Operation::Div(2),
    ];

    let mut replayed = Calculator::new();
    for line in lines {
        let response = replayed.respond(&Protocol::from_bytes(line));
        assert_eq!(response.to_text(), "OK\n");
    }

    let mut folded = Calculator::new();
    for op in ops {
        folded.apply(op);
    }

    assert_eq!(replayed.accumulation(), folded.accumulation());
}

#[test]
fn handle_message_dispatches_all_kinds() {
    let calculator = SharedCalculator::new();

    let ok = handle_message(&calculator, Protocol::from_bytes(b"OPERATION + 2\n")).unwrap();
    assert_eq!(ok.to_text(), "OK\n");

    let value = handle_message(&calculator, Protocol::from_bytes(b"GET\n")).unwrap();
    assert_eq!(value.to_text(), "VALUE 2\n");

    let unexpected = handle_message(&calculator, Protocol::from_bytes(b"VALUE 9\n")).unwrap();
    assert_eq!(unexpected.to_text(), "ERROR \"unexpected message: VALUE 9\"\n");
}

#[test]
fn received_error_line_is_echoed_without_added_quotes() {
    let mut calc = Calculator::new();

    let first = calc.respond(&Protocol::from_bytes(b"ERROR \"boom\"\n"));
    match first {
        Protocol::ErrorOperation(reason) => {
            assert_eq!(reason, "unexpected message: ERROR \"boom\"");
        },
        _ => panic!("expected an error response"),
    }

    let second = calc.respond(&Protocol::from_bytes(b"ERROR\n"));
    match second {
        Protocol::ErrorOperation(reason) => assert_eq!(reason, "unexpected message: ERROR"),
        _ => panic!("expected an error response"),
    }
}

#[test]
fn send_protocol_appends_to_the_buffer() {
    let mut buffer: Vec<u8> = Vec::new();
    send_protocol(Protocol::Okay, &mut buffer).unwrap();
    send_protocol(Protocol::Value("4".to_string()), &mut buffer).unwrap();

    assert_eq!(buffer, b"OK\nVALUE 4\n".to_vec());
}
