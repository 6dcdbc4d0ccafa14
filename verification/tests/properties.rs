use gallivant::execution::measurement::Error as MeasurementError;
use gallivant::syntax::error::ErrorReason as SyntaxErrorReason;
use gallivant::{
    parse_from_str, tcu_decode_byte, tcu_format_byte, tcu_format_measurement, ErrorReason, Expr,
    ExprKind, FrontendRequest, Interpreter, Measurement, MeasurementTest, MockTCUPort, ParsedExpr,
    Span, TransactionStatus,
};

type Request = FrontendRequest;

struct PortMock {
    rxdata: Vec<u8>,
    txdata: Vec<u8>,
}

impl PortMock {
    fn new() -> Self {
        PortMock { rxdata: Vec::new(), txdata: Vec::new() }
    }
}

impl std::io::Read for PortMock {
    fn read(&mut self, buf: &mut [u8]) -> std::io::Result<usize> {
        let count = std::cmp::min(self.rxdata.len(), buf.len());
        for (i, byte) in self.rxdata.drain(..count).enumerate() {
            buf[i] = byte;
        }
        Ok(count)
    }
}

impl std::io::Write for PortMock {
    fn write(&mut self, buf: &[u8]) -> std::io::Result<usize> {
        self.txdata.extend_from_slice(buf);
        Ok(buf.len())
    }

    fn flush(&mut self) -> std::io::Result<()> {
        Ok(())
    }
}

fn interpret_script(script: &str) -> Vec<FrontendRequest> {
    let mut interpreter = Interpreter::try_from_str(script).unwrap();
    let mut requests = Vec::new();
    while let Some(request) = interpreter.next() {
        requests.push(request.unwrap());
    }
    requests
}

#[test]
fn test_spans_lie_within_source() {
    let script = "  TCUOPEN 2 \nFLUSH";
    let nodes = parse_from_str(script).unwrap();
    assert_eq!(nodes.len(), 2);
    for n in &nodes {
        let span = n.span();
        assert!(span.start <= span.end);
        assert!(span.end <= script.len());
    }
    assert_eq!(nodes[0].span(), Span { start: 2, end: 11 });
    assert_eq!(nodes[1].span(), Span { start: 13, end: 18 });
}

#[test]
fn test_equality_ignores_whitespace_and_spans() {
    let first = parse_from_str("FLUSH\nWAIT 5\nPRINT \"a\", 2").unwrap();
    let second = parse_from_str("   FLUSH \n\n\n WAIT     5\n\tPRINT   \"a\" ,  2  ").unwrap();
    assert_eq!(first, second);

    let spanned = ParsedExpr::from_kind_and_span(Expr::Flush, Span { start: 3, end: 8 });
    assert_eq!(spanned, ParsedExpr::from_kind_default(Expr::Flush));
}

#[test]
fn test_comments_and_blank_lines() {
    let script = ";comment\n\n\nFLUSH\n";
    let requests = interpret_script(script);
    assert_eq!(requests, [Request::NoAction, Request::TCUFlush]);

    let nodes = parse_from_str(script).unwrap();
    assert_eq!(nodes.len(), 2);
    assert_eq!(
        nodes[0],
        ParsedExpr::from_kind_default(Expr::ScriptComment(String::from("comment")))
    );
    assert_eq!(nodes[1], ParsedExpr::from_kind_default(Expr::Flush));
}

#[test]
fn test_arg_value_error_details() {
    let script = "TCUCLOSE 256";
    let errors = parse_from_str(script).unwrap_err();
    assert_eq!(errors.len(), 1);
    match errors[0].reason() {
        SyntaxErrorReason::ArgValue { span, value, limits } => {
            assert_eq!(*span, Span { start: 9, end: 12 });
            assert_eq!(*value, 256);
            assert_eq!(*limits, (0, 255));
        },
        other => panic!("unexpected reason {:?}", other),
    }
    let labels = errors[0].reason().labels();
    assert_eq!(labels.len(), 2);
    assert_eq!(labels[0].message, "Argument has value 256");
    assert_eq!(labels[0].priority, 10);
    assert_eq!(labels[1].message, "Argument must be between 0 and 255");
    assert_eq!(labels[1].priority, 9);
}

#[test]
fn test_arg_type_error_details() {
    let script = "COMMENT 1234";
    let errors = parse_from_str(script).unwrap_err();
    assert_eq!(errors.len(), 1);
    match errors[0].reason() {
        SyntaxErrorReason::ArgType { span, expected, found } => {
            assert_eq!(*span, Span { start: 8, end: 12 });
            assert_eq!(*expected, vec![ExprKind::String]);
            assert_eq!(*found, ExprKind::UInt);
        },
        other => panic!("unexpected reason {:?}", other),
    }
    assert_eq!(errors[0].reason().message(), "Invalid argument type");
    let labels = errors[0].reason().labels();
    assert_eq!(labels.len(), 2);
    assert_eq!(labels[0].message, "Expected 'String'");
    assert_eq!(labels[1].message, "Found 'Unsigned Integer'");
    assert_eq!(errors[0].notes().len(), 1);
}

#[test]
fn test_unrecognised_command_error() {
    let script = "CMMENT";
    let errors = parse_from_str(script).unwrap_err();
    assert_eq!(errors.len(), 1);
    assert!(matches!(
        errors[0].reason(),
        SyntaxErrorReason::UnrecognisedCommand { .. }
    ));
    assert_eq!(errors[0].reason().message(), "Unrecognised command found");
    let labels = errors[0].reason().labels();
    assert_eq!(labels.len(), 1);
    assert_eq!(labels[0].message, "Unrecognised command");
}

#[test]
fn test_print_payload_limit() {
    // 127 payload bytes still fit: the expanded length is 254.
    let fitting = format!("PRINT \"{}\"", "a".repeat(127));
    let requests = interpret_script(&fitting);
    assert!(matches!(requests[..], [Request::TCUTransact(_)]));

    // 128 payload bytes expand to 256 digits, one over the length byte.
    let script = format!("PRINT \"{}\"", "a".repeat(128));
    let mut interpreter = Interpreter::try_from_str(&script).unwrap();
    let result = interpreter.next().unwrap();
    let error = result.unwrap_err();
    match error.reason() {
        ErrorReason::SyntaxError(SyntaxErrorReason::ArgValue { value, limits, .. }) => {
            assert_eq!(*value, 256);
            assert_eq!(*limits, (0, 255));
        },
        other => panic!("unexpected reason {:?}", other),
    }
}

#[test]
fn test_print_no_arguments() {
    let requests = interpret_script("PRINT");
    assert!(matches!(requests[..], [Request::TCUTransact(_)]));
    if let Request::TCUTransact(transaction) = requests[0].clone() {
        assert_eq!(transaction.bytes(), &b"P00\r".to_vec());
    }
}

#[test]
fn test_hpmode_round_trip() {
    // Two toggles cancel out: the encoding is the plain one again.
    let script = "HPMODE\nHPMODE\nSETTIMEFORMAT 5";
    let requests = interpret_script(script);
    assert!(matches!(
        requests[..],
        [Request::NoAction, Request::NoAction, Request::TCUTransact(_)]
    ));
    if let Request::TCUTransact(transaction) = requests[2].clone() {
        assert_eq!(transaction.bytes(), &b"P051B746605\r".to_vec());
    }
}

#[test]
fn test_retry_bound() {
    // With two retries the transaction sends at most three times before it
    // fails for good.
    let requests = interpret_script(r#"TCUTEST 3, 1000, 12000, 2, "FAIL""#);
    assert!(matches!(requests[..], [Request::TCUTransact(_)]));
    let mut transaction = match requests[0].clone() {
        Request::TCUTransact(t) => t,
        _ => panic!(),
    };
    let mut port = PortMock::new();
    // First send.
    transaction = match transaction.process(&mut port) {
        Ok(TransactionStatus::Ongoing(t)) => t,
        other => panic!("unexpected status {:?}", other),
    };
    assert_eq!(port.txdata, b"M03\r");
    // The echo and a measurement of one, far below the minimum.
    port.rxdata.extend(b"M03\r001\r");
    let mut rounds = 0;
    let failure = loop {
        match transaction.process(&mut port) {
            Ok(TransactionStatus::Ongoing(t)) => {
                transaction = t;
                rounds += 1;
                assert!(rounds < 20);
            },
            Ok(TransactionStatus::Success) => panic!("the test cannot pass"),
            Err(error) => break error,
        }
    };
    // Three sends in all: the first, plus one per retry.
    assert_eq!(port.txdata, b"M03\rM03\rM03\r");
    match failure.reason() {
        ErrorReason::TestFailure { test, .. } => {
            assert_eq!(test.measurement, 1);
            assert_eq!(test.message, "FAIL");
        },
        other => panic!("unexpected reason {:?}", other),
    }
}

#[test]
fn test_failed_test_labels_violated_bound() {
    let script = r#"TCUTEST 3, 1000, 12000, 0, "FAIL""#;
    let requests = interpret_script(script);
    let mut transaction = match requests[0].clone() {
        Request::TCUTransact(t) => t,
        _ => panic!(),
    };
    let mut port = PortMock::new();
    transaction = match transaction.process(&mut port) {
        Ok(TransactionStatus::Ongoing(t)) => t,
        other => panic!("unexpected status {:?}", other),
    };
    port.rxdata.extend(b"M03\rFFFF\r");
    let error = match transaction.process(&mut port) {
        Err(error) => error,
        other => panic!("unexpected status {:?}", other),
    };
    assert_eq!(error.reason().message(), "Test failed - FAIL");
    match error.reason() {
        ErrorReason::TestFailure { test, .. } => {
            assert_eq!(test.measurement, 65535);
            assert_eq!(test.expected_min, 1000);
            assert_eq!(test.expected_max, 12000);
        },
        other => panic!("unexpected reason {:?}", other),
    }
    let labels = error.reason().labels();
    assert_eq!(labels.len(), 1);
    assert_eq!(labels[0].message, "Expected maximum value of 12000 but measured 65535");
    assert_eq!(labels[0].order, 1);
    // The label points at the maximum argument of the script.
    assert_eq!(labels[0].span, Span { start: 17, end: 22 });
}

#[test]
fn test_echo_mismatch_is_an_error() {
    let requests = interpret_script("TCUCLOSE 6");
    let mut transaction = match requests[0].clone() {
        Request::TCUTransact(t) => t,
        _ => panic!(),
    };
    let mut port = PortMock::new();
    transaction = match transaction.process(&mut port) {
        Ok(TransactionStatus::Ongoing(t)) => t,
        other => panic!("unexpected status {:?}", other),
    };
    port.rxdata.extend(b"XXX\r");
    let error = match transaction.process(&mut port) {
        Err(error) => error,
        other => panic!("unexpected status {:?}", other),
    };
    assert_eq!(error.reason().message(), "IO error - Command echo incorrect");
}

#[test]
fn test_unreadable_measurement_is_an_error() {
    let requests = interpret_script(r#"TCUTEST 3, 1000, 12000, 0, "FAIL""#);
    let mut transaction = match requests[0].clone() {
        Request::TCUTransact(t) => t,
        _ => panic!(),
    };
    let mut port = PortMock::new();
    transaction = match transaction.process(&mut port) {
        Ok(TransactionStatus::Ongoing(t)) => t,
        other => panic!("unexpected status {:?}", other),
    };
    port.rxdata.extend(b"M03\rZZ\r");
    let error = match transaction.process(&mut port) {
        Err(error) => error,
        other => panic!("unexpected status {:?}", other),
    };
    assert_eq!(error.reason().message(), "IO error - Measurement parse error");
}

#[test]
fn test_settime_frame_shape() {
    let requests = interpret_script("SETTIME");
    assert!(matches!(requests[..], [Request::TCUTransact(_)]));
    if let Request::TCUTransact(transaction) = requests[0].clone() {
        let bytes = transaction.bytes();
        // 'P15', the escape digits and the tag, 17 clock bytes as 34 hex
        // digits, and the carriage return.
        assert_eq!(bytes.len(), 44);
        assert_eq!(&bytes[0..9], b"P151B7473");
        assert_eq!(bytes[43], b'\r');
        for b in &bytes[9..43] {
            assert!(b.is_ascii_hexdigit());
        }
    }
}

#[test]
fn test_usbsettime_frame_shape() {
    let requests = interpret_script("USBSETTIME");
    assert!(matches!(requests[..], [Request::PrinterTransact(_)]));
    if let Request::PrinterTransact(transaction) = requests[0].clone() {
        let bytes = transaction.bytes();
        // Escape, 't', 's', then HH:MM:SS,DD/MM/YY.
        assert_eq!(bytes.len(), 20);
        assert_eq!(&bytes[0..3], &[0x1B, b't', b's']);
        let clock = &bytes[3..20];
        assert_eq!(clock[2], b':');
        assert_eq!(clock[5], b':');
        assert_eq!(clock[8], b',');
        assert_eq!(clock[11], b'/');
        assert_eq!(clock[14], b'/');
        for at in [0, 1, 3, 4, 6, 7, 9, 10, 12, 13, 15, 16] {
            assert!(clock[at].is_ascii_digit());
        }
    }
}

#[test]
fn test_measurement_parsing() {
    assert_eq!(Measurement::try_from_bytes(b"AA1\r"), Ok(Measurement(0xAA1)));
    assert_eq!(Measurement::try_from_bytes(b"AA1\rmore"), Ok(Measurement(0xAA1)));
    assert_eq!(Measurement::try_from_bytes(b"ffffffff\r"), Ok(Measurement(u32::MAX)));
    assert!(matches!(
        Measurement::try_from_bytes(b""),
        Err(MeasurementError::ParseError)
    ));
    assert!(matches!(
        Measurement::try_from_bytes(b"\rAA1"),
        Err(MeasurementError::ParseError)
    ));
    assert!(matches!(
        Measurement::try_from_bytes(b"XYZ\r"),
        Err(MeasurementError::ParseError)
    ));
    assert!(matches!(
        Measurement::try_from_bytes(b"123456789\r"),
        Err(MeasurementError::ParseError)
    ));
}

#[test]
fn test_measurement_test_outcomes() {
    let test = MeasurementTest {
        expected_min: 1000,
        expected_max: 12000,
        retries: 1,
        failure_message: String::from("FAIL"),
    };
    assert_eq!(test.clone().test(Measurement(5000)), Ok(()));
    match test.clone().test(Measurement(1)) {
        Err(MeasurementError::TestFailedRetryable(retry)) => {
            assert_eq!(retry.retries, 0);
            match retry.test(Measurement(1)) {
                Err(MeasurementError::TestFailed(failed)) => {
                    assert_eq!(failed.measurement, 1);
                    assert_eq!(failed.expected_min, 1000);
                    assert_eq!(failed.expected_max, 12000);
                    assert_eq!(failed.message, "FAIL");
                },
                other => panic!("unexpected outcome {:?}", other),
            }
        },
        other => panic!("unexpected outcome {:?}", other),
    }
    assert_eq!(test.clone().evaluate(b"AA1\r"), Ok(None));
    assert!(matches!(
        test.evaluate(b"junk"),
        Err(MeasurementError::ParseError)
    ));
}

#[test]
fn test_interpreter_restart() {
    let script = "HPMODE\nSETTIMEFORMAT 5";
    let mut interpreter = Interpreter::try_from_str(script).unwrap();
    let mut first_run = Vec::new();
    while let Some(request) = interpreter.next() {
        first_run.push(request.unwrap());
    }
    interpreter.restart();
    let mut second_run = Vec::new();
    while let Some(request) = interpreter.next() {
        second_run.push(request.unwrap());
    }
    assert_eq!(first_run, second_run);
    if let Request::TCUTransact(transaction) = second_run[1].clone() {
        assert_eq!(transaction.bytes(), &b"P051B00746605\r".to_vec());
    } else {
        panic!("expected a TCU transaction");
    }
}

#[test]
fn test_hex_formatting_helpers() {
    assert_eq!(tcu_format_byte(0xF3), b"F3".to_vec());
    assert_eq!(tcu_format_byte(0x05), b"05".to_vec());
    assert_eq!(tcu_format_measurement(5000), b"1388\r".to_vec());
    assert_eq!(tcu_format_measurement(0), b"0000\r".to_vec());
    assert_eq!(tcu_decode_byte(b"0A"), 10);
    assert_eq!(tcu_decode_byte(b"ff"), 255);
}

#[test]
fn test_mock_tcu_port() {
    let mut port = MockTCUPort::new();
    // A measurement command is echoed and answered from the fixed table.
    assert_eq!(port.write_bytes(b"M03\r"), Ok(4));
    assert_eq!(port.bytes_to_read(), 9);
    assert_eq!(port.read_bytes(9), b"M03\r1388\r".to_vec());
    // A command may arrive in pieces.
    assert_eq!(port.write_bytes(b"C0"), Ok(2));
    assert_eq!(port.bytes_to_read(), 0);
    assert_eq!(port.write_bytes(b"6\r"), Ok(2));
    assert_eq!(port.read_bytes(10), b"C06\r".to_vec());
    // A printer measurement goes through the table for the printer.
    assert_eq!(port.write_bytes(b"W051B004D04\r"), Ok(12));
    assert_eq!(port.read_bytes(20), b"W051B004D04\r0019\r".to_vec());
    // A command the mock does not know is refused.
    assert!(port.write_bytes(b"Z\r").is_err());
}
