use gallivant::syntax::error::ErrorReason;
use gallivant::{parse_from_str, Expr, ParsedExpr};

fn node(expr: Expr) -> ParsedExpr {
    ParsedExpr::from_kind_default(expr)
}

fn s(value: &str) -> Box<ParsedExpr> {
    Box::new(ParsedExpr::from_str_default(value))
}

fn u(value: u32) -> Box<ParsedExpr> {
    Box::new(ParsedExpr::from_uint_default(value))
}

#[test]
fn test_parse_commands() {
    let script = r#"
HPMODE
COMMENT "Test"
WAIT 1234
OPENDIALOG "Hello"
WAITDIALOG "PLEASE WAIT"
FLUSH
PROTOCOL
PRINT "print me"
SETTIMEFORMAT $A6
SETTIME
SETOPTION 4, 6
TCUCLOSE 4
TCUOPEN $F
TCUTEST 5, 12000, 56000, 0, "error"
PRINTERSET 1
PRINTERTEST 4,133, 987,5,"error message"
USBOPEN
USBCLOSE
USBPRINT "Look at me I can print"
USBSETTIMEFORMAT 5
USBSETTIME
USBSETOPTION 5, 9
USBPRINTERSET 6
USBPRINTERTEST 4, 133, 987, 5, "error message"
        "#;

    assert_eq!(
        parse_from_str(script).unwrap(),
        [
            node(Expr::HPMode),
            node(Expr::Comment(s("Test"))),
            node(Expr::Wait(u(1234))),
            node(Expr::OpenDialog(s("Hello"))),
            node(Expr::WaitDialog(s("PLEASE WAIT"))),
            node(Expr::Flush),
            node(Expr::Protocol),
            node(Expr::Print(vec![ParsedExpr::from_str_default("print me")])),
            node(Expr::SetTimeFormat(u(0xA6))),
            node(Expr::SetTime),
            node(Expr::SetOption { option: u(4), setting: u(6) }),
            node(Expr::TCUClose(u(4))),
            node(Expr::TCUOpen(u(0xF))),
            node(Expr::TCUTest {
                channel: u(5),
                min: u(12000),
                max: u(56000),
                retries: u(0),
                message: s("error"),
            }),
            node(Expr::PrinterSet(u(1))),
            node(Expr::PrinterTest {
                channel: u(4),
                min: u(133),
                max: u(987),
                retries: u(5),
                message: s("error message"),
            }),
            node(Expr::USBOpen),
            node(Expr::USBClose),
            node(Expr::USBPrint(vec![ParsedExpr::from_str_default(
                "Look at me I can print"
            )])),
            node(Expr::USBSetTimeFormat(u(5))),
            node(Expr::USBSetTime),
            node(Expr::USBSetOption { option: u(5), setting: u(9) }),
            node(Expr::USBPrinterSet(u(6))),
            node(Expr::USBPrinterTest {
                channel: u(4),
                min: u(133),
                max: u(987),
                retries: u(5),
                message: s("error message"),
            }),
        ]
    );
}

#[test]
fn test_single_command() {
    let script = r#"COMMENT "Comment 1234""#;
    assert_eq!(
        parse_from_str(script).unwrap(),
        [node(Expr::Comment(s("Comment 1234")))]
    );
}

#[test]
fn test_hex_arg_leading_0s() {
    let script = r#"TCUOPEN $00C"#;
    assert_eq!(
        parse_from_str(script).unwrap(),
        [node(Expr::TCUOpen(u(0x0C)))]
    );
}

#[test]
fn test_hex_arg_0() {
    let script = r#"TCUOPEN $00"#;
    assert_eq!(parse_from_str(script).unwrap(), [node(Expr::TCUOpen(u(0)))]);
}

#[test]
fn test_dec_arg_0() {
    let script = r#"TCUOPEN 0"#;
    assert_eq!(parse_from_str(script).unwrap(), [node(Expr::TCUOpen(u(0)))]);
}

#[test]
fn test_invalid_string_type_arg() {
    let script = r#"COMMENT 1234"#;

    let errors = parse_from_str(script).unwrap_err();

    assert_eq!(errors.len(), 1);
    assert!(matches!(
        errors.first().unwrap().reason(),
        ErrorReason::ArgType { .. }
    ));
}

#[test]
fn test_invalid_uint_type_arg() {
    let script = r#"WAIT "$F54A""#;

    let errors = parse_from_str(script).unwrap_err();

    assert_eq!(errors.len(), 1);
    assert!(matches!(
        errors.first().unwrap().reason(),
        ErrorReason::ArgType { .. }
    ));
}

#[test]
fn test_invalid_uint_value_arg() {
    let script = r#"TCUCLOSE 256"#;

    let errors = parse_from_str(script).unwrap_err();

    assert_eq!(errors.len(), 1);
    assert!(matches!(
        errors.first().unwrap().reason(),
        ErrorReason::ArgValue { .. }
    ));
}

#[test]
fn test_comment_own_line() {
    let script = r#";Test comment"#;
    assert_eq!(
        parse_from_str(script).unwrap(),
        [node(Expr::ScriptComment(String::from("Test comment")))]
    );
}

#[test]
fn test_comment_around_command() {
    let script = r#"
;Comment
PRINT "test" ; Comment
;Comment
        "#;

    assert_eq!(
        parse_from_str(script).unwrap(),
        [
            node(Expr::ScriptComment(String::from("Comment"))),
            node(Expr::Print(vec![ParsedExpr::from_str_default("test")])),
            node(Expr::ScriptComment(String::from(" Comment"))),
            node(Expr::ScriptComment(String::from("Comment"))),
        ]
    );
}

#[test]
fn test_comment_repeated() {
    let script = r#"
;;;;;;Comment
; Comment ;;;; Comment ;;;
;;;;Comment;;;
        "#;

    assert_eq!(
        parse_from_str(script).unwrap(),
        [
            node(Expr::ScriptComment(String::from(";;;;;Comment"))),
            node(Expr::ScriptComment(String::from(" Comment ;;;; Comment ;;;"))),
            node(Expr::ScriptComment(String::from(";;;Comment;;;"))),
        ]
    );
}

#[test]
fn test_commented_out_command() {
    let script = r#"; PRINT "test""#;

    assert_eq!(
        parse_from_str(script).unwrap(),
        [node(Expr::ScriptComment(String::from(" PRINT \"test\"")))]
    );
}
