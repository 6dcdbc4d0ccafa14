use vstd::prelude::*;

use chrono::{Datelike, Timelike};

use crate::error::{Error, ErrorReason};
use crate::execution::frontend::{Dialog, FrontendRequest};
use crate::execution::measurement::MeasurementTest;
use crate::execution::transaction::{Device, Transaction};
use crate::syntax::error::ErrorReason as SyntaxErrorReason;
use crate::syntax::expression::{pexpr_equiv, Expr, ExprKind, ParsedExpr};
use vstd::utf8::encode_utf8;

verus! {

/// The interpreter state that evaluation reads and writes: whether the
/// `HPMODE` toggle is on.
#[derive(Clone, Copy, Debug, PartialEq, Eq, Structural)]
pub struct EvalState {
    pub hpmode: bool,
}

impl EvalState {
    pub fn new() -> (r: Self)
        ensures
            r.hpmode == false,
    {
        Self { hpmode: false }
    }
}

/// A wall-clock instant broken into the fields that the time commands
/// send.
#[derive(Clone, Copy, Debug, PartialEq, Eq, Structural)]
pub struct TimeFields {
    pub hour: u32,
    pub minute: u32,
    pub second: u32,
    pub day: u32,
    pub month: u32,
    pub year: i32,
}

impl TimeFields {
    /// The ranges that a clock reading stays within.
    pub open spec fn wf(self) -> bool {
        &&& self.hour <= 23
        &&& self.minute <= 59
        &&& self.second <= 59
        &&& 1 <= self.day <= 31
        &&& 1 <= self.month <= 12
        &&& -262200 <= self.year <= 262200
    }
}

/// Relies on chrono's Local::now with its Timelike and Datelike accessors:
/// hour runs from 0 to 23, minute and second from 0 to 59, day from 1 to
/// 31, month from 1 to 12, and chrono dates keep the year within about
/// plus or minus 262000.
#[verifier::external_body]
fn local_time_fields() -> (r: TimeFields)
    ensures
        r.wf(),
{
    let now = chrono::Local::now();
    TimeFields {
        hour: now.hour(),
        minute: now.minute(),
        second: now.second(),
        day: now.day(),
        month: now.month(),
        year: now.year(),
    }
}

/// The ASCII code of a hexadecimal digit, uppercase.
pub open spec fn hex_digit(n: u8) -> u8
    recommends
        n < 16,
{
    if n < 10 {
        (0x30 + n) as u8
    } else {
        (0x41 + (n - 10)) as u8
    }
}

/// The two ASCII hex digits of a byte, most significant first.
pub open spec fn fmt2(b: u8) -> Seq<u8> {
    seq![hex_digit(b / 16), hex_digit(b % 16)]
}

/// Every byte of a sequence as two ASCII hex digits.
pub open spec fn fmt2_all(s: Seq<u8>) -> Seq<u8>
    decreases s.len(),
{
    if s.len() == 0 {
        Seq::empty()
    } else {
        fmt2_all(s.drop_last()) + fmt2(s.last())
    }
}

/// Format a byte into a hex representation using ASCII characters. Return
/// those characters as bytes.
pub fn tcu_format_byte(byte: u8) -> (r: Vec<u8>)
    ensures
        r@ == fmt2(byte),
{
    let mut r: Vec<u8> = Vec::new();
    push_fmt2(&mut r, byte);
    proof {
        assert(r@ =~= fmt2(byte));
    }
    r
}

/// Append the two hex digits of a byte.
pub(crate) fn push_fmt2(v: &mut Vec<u8>, b: u8)
    ensures
        final(v)@ == old(v)@ + fmt2(b),
{
    let hi: u8 = b / 16;
    let lo: u8 = b % 16;
    v.push(if hi < 10 {
        0x30 + hi
    } else {
        0x41 + (hi - 10)
    });
    v.push(if lo < 10 {
        0x30 + lo
    } else {
        0x41 + (lo - 10)
    });
    proof {
        assert(final(v)@ =~= old(v)@ + fmt2(b));
    }
}

/// Append a copy of the given bytes.
fn extend_bytes(dst: &mut Vec<u8>, src: &Vec<u8>)
    ensures
        final(dst)@ == old(dst)@ + src@,
{
    let mut i: usize = 0;
    while i < src.len()
        invariant
            0 <= i <= src@.len(),
            dst@ == old(dst)@ + src@.take(i as int),
        decreases src@.len() - i,
    {
        dst.push(src[i]);
        proof {
            assert(old(dst)@ + src@.take(i as int + 1) =~= (old(dst)@ + src@.take(i as int)).push(
                src@[i as int],
            ));
        }
        i += 1;
    }
    proof {
        assert(src@.take(src@.len() as int) =~= src@);
    }
}

/// Append every byte as two hex digits.
fn extend_fmt2_all(dst: &mut Vec<u8>, src: &Vec<u8>)
    ensures
        final(dst)@ == old(dst)@ + fmt2_all(src@),
{
    let mut i: usize = 0;
    while i < src.len()
        invariant
            0 <= i <= src@.len(),
            dst@ == old(dst)@ + fmt2_all(src@.take(i as int)),
        decreases src@.len() - i,
    {
        push_fmt2(dst, src[i]);
        proof {
            assert(src@.take(i as int + 1).drop_last() =~= src@.take(i as int));
            assert(src@.take(i as int + 1).last() == src@[i as int]);
        }
        i += 1;
    }
    proof {
        assert(src@.take(src@.len() as int) =~= src@);
    }
}

/// The two ASCII decimal digits of a value below one hundred.
pub open spec fn dec2(n: u32) -> Seq<u8>
    recommends
        n < 100,
{
    seq![(0x30 + n / 10) as u8, (0x30 + n % 10) as u8]
}

/// Append the two decimal digits of a value below one hundred.
fn push_dec2(v: &mut Vec<u8>, n: u32)
    requires
        n < 100,
    ensures
        final(v)@ == old(v)@ + dec2(n),
{
    v.push(0x30 + (n / 10) as u8);
    v.push(0x30 + (n % 10) as u8);
    proof {
        assert(final(v)@ =~= old(v)@ + dec2(n));
    }
}

/// The two-digit year that the time commands send: the year since 1900,
/// modulo one hundred.
pub open spec fn two_digit_year(year: i32) -> u32 {
    ((year - 1900) % 100) as u32
}

/// The clock as the printer's time commands expect it, as ASCII:
/// hours, minutes and seconds separated by colons, then a comma, then
/// day, month and two-digit year separated by slashes.
pub open spec fn time_ascii(now: TimeFields) -> Seq<u8> {
    dec2(now.hour) + seq![0x3Au8] + dec2(now.minute) + seq![0x3Au8] + dec2(now.second) + seq![
        0x2Cu8,
    ] + dec2(now.day) + seq![0x2Fu8] + dec2(now.month) + seq![0x2Fu8] + dec2(two_digit_year(now.year))
}

/// Render the clock for the time commands.
fn time_bytes(now: TimeFields) -> (r: Vec<u8>)
    requires
        now.wf(),
    ensures
        r@ == time_ascii(now),
{
    let mut v: Vec<u8> = Vec::new();
    push_dec2(&mut v, now.hour);
    v.push(0x3A);
    push_dec2(&mut v, now.minute);
    v.push(0x3A);
    push_dec2(&mut v, now.second);
    v.push(0x2C);
    push_dec2(&mut v, now.day);
    v.push(0x2F);
    push_dec2(&mut v, now.month);
    v.push(0x2F);
    let diff: i64 = now.year as i64 - 1900;
    let rem: i64 = diff % 100;
    let yy: i64 = if rem < 0 {
        rem + 100
    } else {
        rem
    };
    proof {
        assert(yy == two_digit_year(now.year) as i64);
    }
    push_dec2(&mut v, yy as u32);
    proof {
        assert(v@ =~= time_ascii(now));
    }
    v
}

/// Whether an expression is a value that may stand as a `PRINT` argument:
/// a string, or an unsigned integer that fits one byte.
pub open spec fn arg_is_value(e: Expr) -> bool {
    ||| e matches Expr::String(_)
    ||| (e matches Expr::UInt(u) && u <= 255)
}

/// Whether every element of an argument list is such a value.
pub open spec fn print_args_wf(args: Seq<ParsedExpr>) -> bool {
    forall|i: int| 0 <= i < args.len() ==> arg_is_value(#[trigger] args[i].expr)
}

/// The bytes one value argument contributes: a string's UTF-8 bytes, or
/// the integer as a single byte.
pub open spec fn arg_bytes(e: Expr) -> Seq<u8> {
    match e {
        Expr::String(s) => encode_utf8(s@),
        Expr::UInt(u) => seq![u as u8],
        _ => Seq::empty(),
    }
}

/// The flat concatenation of all value arguments' bytes.
pub open spec fn args_payload(args: Seq<ParsedExpr>) -> Seq<u8>
    decreases args.len(),
{
    if args.len() == 0 {
        Seq::empty()
    } else {
        args_payload(args.drop_last()) + arg_bytes(args.last().expr)
    }
}

/// A value's requirements on the argument nodes of one command.
pub open spec fn statement_wf(e: Expr) -> bool {
    match e {
        Expr::String(_) => false,
        Expr::UInt(_) => false,
        Expr::ScriptComment(_) => true,
        Expr::HPMode => true,
        Expr::Comment(a) => (*a).expr is String,
        Expr::Wait(a) => (*a).expr is UInt,
        Expr::OpenDialog(a) => (*a).expr is String,
        Expr::WaitDialog(a) => (*a).expr is String,
        Expr::Flush => true,
        Expr::Protocol => true,
        Expr::Print(args) => print_args_wf(args@),
        Expr::SetTimeFormat(a) => (*a).expr matches Expr::UInt(u) && u <= 255,
        Expr::SetTime => true,
        Expr::SetOption { option, setting } => ((*option).expr matches Expr::UInt(o) && o <= 255)
            && ((*setting).expr matches Expr::UInt(s) && s <= 255),
        Expr::TCUClose(a) => (*a).expr matches Expr::UInt(u) && u <= 255,
        Expr::TCUOpen(a) => (*a).expr matches Expr::UInt(u) && u <= 255,
        Expr::TCUTest { channel, min, max, retries, message } => ((*channel).expr
            matches Expr::UInt(c) && c <= 255) && (*min).expr is UInt && (*max).expr is UInt
            && (*retries).expr is UInt && (*message).expr is String,
        Expr::PrinterSet(a) => (*a).expr matches Expr::UInt(u) && u <= 255,
        Expr::PrinterTest { channel, min, max, retries, message } => ((*channel).expr
            matches Expr::UInt(c) && c <= 255) && (*min).expr is UInt && (*max).expr is UInt
            && (*retries).expr is UInt && (*message).expr is String,
        Expr::IssueTest(_) => true,
        Expr::TestResult { .. } => true,
        Expr::USBOpen => true,
        Expr::USBClose => true,
        Expr::USBPrint(args) => print_args_wf(args@),
        Expr::USBSetTimeFormat(a) => (*a).expr matches Expr::UInt(u) && u <= 255,
        Expr::USBSetTime => true,
        Expr::USBSetOption { option, setting } => ((*option).expr matches Expr::UInt(o) && o
            <= 255) && ((*setting).expr matches Expr::UInt(s) && s <= 255),
        Expr::USBPrinterSet(a) => (*a).expr matches Expr::UInt(u) && u <= 255,
        Expr::USBPrinterTest { channel, min, max, retries, message } => ((*channel).expr
            matches Expr::UInt(c) && c <= 255) && (*min).expr is UInt && (*max).expr is UInt
            && (*retries).expr is UInt && (*message).expr is String,
    }
}

/// The hex-expanded length of a payload, saturated to 32 bits.
pub open spec fn expanded_len(n: nat) -> u32 {
    if 2 * n <= u32::MAX {
        (2 * n) as u32
    } else {
        u32::MAX
    }
}

/// The TCU print frame: 'P', the expanded payload length as two hex
/// digits, the payload with each byte as two hex digits, and a carriage
/// return.
pub open spec fn print_frame(payload: Seq<u8>) -> Seq<u8>
    recommends
        2 * payload.len() <= 255,
{
    seq![0x50u8] + fmt2((2 * payload.len()) as u8) + fmt2_all(payload) + seq![0x0Du8]
}

/// The TCU frame of `SETTIMEFORMAT`; `HPMODE` inserts a NUL after the
/// escape byte's digits.
pub open spec fn settimeformat_frame(hp: bool, u: u8) -> Seq<u8> {
    (if hp {
        seq![0x50u8, 0x30, 0x35, 0x31, 0x42, 0x30, 0x30, 0x37, 0x34, 0x36, 0x36]
    } else {
        seq![0x50u8, 0x30, 0x35, 0x31, 0x42, 0x37, 0x34, 0x36, 0x36]
    }) + fmt2(u) + seq![0x0Du8]
}

/// The TCU frame of `SETTIME` at the given clock reading.
pub open spec fn settime_frame(hp: bool, now: TimeFields) -> Seq<u8> {
    (if hp {
        seq![0x50u8, 0x31, 0x35, 0x31, 0x42, 0x30, 0x30, 0x37, 0x34, 0x37, 0x33]
    } else {
        seq![0x50u8, 0x31, 0x35, 0x31, 0x42, 0x37, 0x34, 0x37, 0x33]
    }) + fmt2_all(time_ascii(now)) + seq![0x0Du8]
}

/// The TCU frame of `SETOPTION`.
pub open spec fn setoption_frame(hp: bool, option: u8, setting: u8) -> Seq<u8> {
    (if hp {
        seq![0x50u8, 0x30, 0x36, 0x31, 0x42, 0x30, 0x30, 0x30, 0x30, 0x34, 0x46]
    } else {
        seq![0x50u8, 0x30, 0x36, 0x31, 0x42, 0x30, 0x30, 0x34, 0x46]
    }) + fmt2(option) + fmt2(setting) + seq![0x0Du8]
}

/// The TCU frame of `TCUCLOSE`.
pub open spec fn tcuclose_frame(relay: u8) -> Seq<u8> {
    seq![0x43u8] + fmt2(relay) + seq![0x0Du8]
}

/// The TCU frame of `TCUOPEN`.
pub open spec fn tcuopen_frame(relay: u8) -> Seq<u8> {
    seq![0x4Fu8] + fmt2(relay) + seq![0x0Du8]
}

/// The TCU frame of `TCUTEST`.
pub open spec fn tcutest_frame(channel: u8) -> Seq<u8> {
    seq![0x4Du8] + fmt2(channel) + seq![0x0Du8]
}

/// The TCU frame of `PRINTERSET`.
pub open spec fn printerset_frame(hp: bool, channel: u8) -> Seq<u8> {
    (if hp {
        seq![0x50u8, 0x30, 0x35, 0x31, 0x42, 0x30, 0x30, 0x30, 0x30, 0x35, 0x33]
    } else {
        seq![0x50u8, 0x30, 0x35, 0x31, 0x42, 0x30, 0x30, 0x35, 0x33]
    }) + fmt2(channel) + seq![0x0Du8]
}

/// The TCU frame of `PRINTERTEST`.
pub open spec fn printertest_frame(hp: bool, channel: u8) -> Seq<u8> {
    (if hp {
        seq![0x57u8, 0x30, 0x35, 0x31, 0x42, 0x30, 0x30, 0x30, 0x30, 0x34, 0x44]
    } else {
        seq![0x57u8, 0x30, 0x35, 0x31, 0x42, 0x30, 0x30, 0x34, 0x44]
    }) + fmt2(channel) + seq![0x0Du8]
}

/// The printer's own `USBSETTIMEFORMAT` bytes: escape, 't', 'f' and the
/// format; `HPMODE` inserts a NUL after the escape.
pub open spec fn usb_settimeformat_frame(hp: bool, u: u8) -> Seq<u8> {
    if hp {
        seq![0x1Bu8, 0x00, 0x74, 0x66, u]
    } else {
        seq![0x1Bu8, 0x74, 0x66, u]
    }
}

/// The printer's own `USBSETTIME` bytes: escape, 't', 's' and the clock.
pub open spec fn usb_settime_frame(hp: bool, now: TimeFields) -> Seq<u8> {
    (if hp {
        seq![0x1Bu8, 0x00, 0x74, 0x73]
    } else {
        seq![0x1Bu8, 0x74, 0x73]
    }) + time_ascii(now)
}

/// The printer's own `USBSETOPTION` bytes.
pub open spec fn usb_setoption_frame(hp: bool, option: u8, setting: u8) -> Seq<u8> {
    if hp {
        seq![0x1Bu8, 0x00, 0x00, 0x4F, option, setting]
    } else {
        seq![0x1Bu8, 0x00, 0x4F, option, setting]
    }
}

/// The printer's own `USBPRINTERSET` bytes.
pub open spec fn usb_printerset_frame(hp: bool, channel: u8) -> Seq<u8> {
    if hp {
        seq![0x1Bu8, 0x00, 0x00, 0x53, channel]
    } else {
        seq![0x1Bu8, 0x00, 0x53, channel]
    }
}

/// The printer's own `USBPRINTERTEST` bytes.
pub open spec fn usb_printertest_frame(hp: bool, channel: u8) -> Seq<u8> {
    if hp {
        seq![0x1Bu8, 0x00, 0x00, 0x4D, channel]
    } else {
        seq![0x1Bu8, 0x00, 0x4D, channel]
    }
}

/// A fresh transaction that carries the evaluated expression, these bytes,
/// this device, and this test.
pub open spec fn transact_matches(
    t: Transaction,
    e: ParsedExpr,
    bytes: Seq<u8>,
    dev: Device,
    test: Option<MeasurementTest>,
) -> bool {
    &&& pexpr_equiv(t.expression, e, true)
    &&& t.txbytes@ == bytes
    &&& !t.txcomplete
    &&& t.device == dev
    &&& t.response@.len() == 0
    &&& t.test == test
}

/// The request is a TCU transaction with these bytes and test.
pub open spec fn tcu_transact(
    r: Result<FrontendRequest, Error>,
    e: ParsedExpr,
    bytes: Seq<u8>,
    test: Option<MeasurementTest>,
) -> bool {
    r matches Ok(FrontendRequest::TCUTransact(t)) && transact_matches(t, e, bytes, Device::TCU, test)
}

/// The request is a printer transaction with these bytes and test.
pub open spec fn printer_transact(
    r: Result<FrontendRequest, Error>,
    e: ParsedExpr,
    bytes: Seq<u8>,
    test: Option<MeasurementTest>,
) -> bool {
    r matches Ok(FrontendRequest::PrinterTransact(t)) && transact_matches(
        t,
        e,
        bytes,
        Device::Printer,
        test,
    )
}

/// Evaluation rejected the node with a syntax-shaped error. Of such
/// trees the parser only ever hands out a bare value standing alone as a
/// statement; ill-formed command arguments never leave it.
pub open spec fn eval_rejects(r: Result<FrontendRequest, Error>) -> bool {
    r matches Err(e) && e.reason is SyntaxError
}

/// What evaluating one statement yields, for every tree, toggle state and
/// clock reading: the request of the table for each command, the toggled
/// state after `HPMODE`, and an error exactly on ill-formed trees and on a
/// `PRINT` whose expanded payload exceeds one byte's range.
pub open spec fn eval_step(
    e: ParsedExpr,
    hp: bool,
    now: TimeFields,
    hp_after: bool,
    r: Result<FrontendRequest, Error>,
) -> bool {
    &&& hp_after == (if e.expr is HPMode {
        !hp
    } else {
        hp
    })
    &&& if !statement_wf(e.expr) {
        eval_rejects(r)
    } else {
        match e.expr {
            Expr::ScriptComment(_) => r == Ok::<FrontendRequest, Error>(FrontendRequest::NoAction),
            Expr::HPMode => r == Ok::<FrontendRequest, Error>(FrontendRequest::NoAction),
            Expr::Comment(a) => match (*a).expr {
                Expr::String(s) => r == Ok::<FrontendRequest, Error>(FrontendRequest::GuiPrint(s)),
                _ => false,
            },
            Expr::Wait(a) => match (*a).expr {
                Expr::UInt(ms) => r == Ok::<FrontendRequest, Error>(
                    FrontendRequest::Wait(ms as u64),
                ),
                _ => false,
            },
            Expr::OpenDialog(a) => match (*a).expr {
                Expr::String(s) => r == Ok::<FrontendRequest, Error>(
                    FrontendRequest::GuiDialogue { kind: Dialog::Notification, message: s },
                ),
                _ => false,
            },
            Expr::WaitDialog(a) => match (*a).expr {
                Expr::String(s) => r == Ok::<FrontendRequest, Error>(
                    FrontendRequest::GuiDialogue { kind: Dialog::ManualInput, message: s },
                ),
                _ => false,
            },
            Expr::Flush => r == Ok::<FrontendRequest, Error>(FrontendRequest::TCUFlush),
            Expr::Protocol => r == Ok::<FrontendRequest, Error>(FrontendRequest::NoAction),
            Expr::Print(args) => {
                let p = args_payload(args@);
                if 2 * p.len() <= 255 {
                    tcu_transact(r, e, print_frame(p), None)
                } else {
                    &&& r matches Err(er)
                    &&& er.reason == ErrorReason::SyntaxError(
                        SyntaxErrorReason::ArgValue {
                            span: e.span,
                            value: expanded_len(p.len()),
                            limits: (0u32, 255u32),
                        },
                    )
                    &&& er.notes@.len() == 0
                }
            },
            Expr::SetTimeFormat(a) => match (*a).expr {
                Expr::UInt(u) => tcu_transact(r, e, settimeformat_frame(hp, u as u8), None),
                _ => false,
            },
            Expr::SetTime => tcu_transact(r, e, settime_frame(hp, now), None),
            Expr::SetOption { option, setting } => match ((*option).expr, (*setting).expr) {
                (Expr::UInt(o), Expr::UInt(s)) => tcu_transact(
                    r,
                    e,
                    setoption_frame(hp, o as u8, s as u8),
                    None,
                ),
                _ => false,
            },
            Expr::TCUClose(a) => match (*a).expr {
                Expr::UInt(u) => tcu_transact(r, e, tcuclose_frame(u as u8), None),
                _ => false,
            },
            Expr::TCUOpen(a) => match (*a).expr {
                Expr::UInt(u) => tcu_transact(r, e, tcuopen_frame(u as u8), None),
                _ => false,
            },
            Expr::TCUTest { channel, min, max, retries, message } => match (
                (*channel).expr,
                (*min).expr,
                (*max).expr,
                (*retries).expr,
                (*message).expr,
            ) {
                (
                    Expr::UInt(c),
                    Expr::UInt(mn),
                    Expr::UInt(mx),
                    Expr::UInt(rt),
                    Expr::String(msg),
                ) => tcu_transact(
                    r,
                    e,
                    tcutest_frame(c as u8),
                    Some(
                        MeasurementTest {
                            expected_min: mn,
                            expected_max: mx,
                            retries: rt,
                            failure_message: msg,
                        },
                    ),
                ),
                _ => false,
            },
            Expr::PrinterSet(a) => match (*a).expr {
                Expr::UInt(u) => tcu_transact(r, e, printerset_frame(hp, u as u8), None),
                _ => false,
            },
            Expr::PrinterTest { channel, min, max, retries, message } => match (
                (*channel).expr,
                (*min).expr,
                (*max).expr,
                (*retries).expr,
                (*message).expr,
            ) {
                (
                    Expr::UInt(c),
                    Expr::UInt(mn),
                    Expr::UInt(mx),
                    Expr::UInt(rt),
                    Expr::String(msg),
                ) => tcu_transact(
                    r,
                    e,
                    printertest_frame(hp, c as u8),
                    Some(
                        MeasurementTest {
                            expected_min: mn,
                            expected_max: mx,
                            retries: rt,
                            failure_message: msg,
                        },
                    ),
                ),
                _ => false,
            },
            Expr::IssueTest(_) => r == Ok::<FrontendRequest, Error>(FrontendRequest::NoAction),
            Expr::TestResult { .. } => r == Ok::<FrontendRequest, Error>(FrontendRequest::NoAction),
            Expr::USBOpen => r == Ok::<FrontendRequest, Error>(FrontendRequest::PrinterOpen),
            Expr::USBClose => r == Ok::<FrontendRequest, Error>(FrontendRequest::PrinterClose),
            Expr::USBPrint(args) => printer_transact(r, e, args_payload(args@), None),
            Expr::USBSetTimeFormat(a) => match (*a).expr {
                Expr::UInt(u) => printer_transact(r, e, usb_settimeformat_frame(hp, u as u8), None),
                _ => false,
            },
            Expr::USBSetTime => printer_transact(r, e, usb_settime_frame(hp, now), None),
            Expr::USBSetOption { option, setting } => match ((*option).expr, (*setting).expr) {
                (Expr::UInt(o), Expr::UInt(s)) => printer_transact(
                    r,
                    e,
                    usb_setoption_frame(hp, o as u8, s as u8),
                    None,
                ),
                _ => false,
            },
            Expr::USBPrinterSet(a) => match (*a).expr {
                Expr::UInt(u) => printer_transact(r, e, usb_printerset_frame(hp, u as u8), None),
                _ => false,
            },
            Expr::USBPrinterTest { channel, min, max, retries, message } => match (
                (*channel).expr,
                (*min).expr,
                (*max).expr,
                (*retries).expr,
                (*message).expr,
            ) {
                (
                    Expr::UInt(c),
                    Expr::UInt(mn),
                    Expr::UInt(mx),
                    Expr::UInt(rt),
                    Expr::String(msg),
                ) => printer_transact(
                    r,
                    e,
                    usb_printertest_frame(hp, c as u8),
                    Some(
                        MeasurementTest {
                            expected_min: mn,
                            expected_max: mx,
                            retries: rt,
                            failure_message: msg,
                        },
                    ),
                ),
                _ => false,
            },
            _ => false,
        }
    }
}

/// An error for an argument of the wrong kind.
fn arg_type_error(span: crate::syntax::expression::Span, expected: ExprKind, found: ExprKind) -> (r:
    Error)
    ensures
        r.reason is SyntaxError,
        r.notes@.len() == 0,
{
    let mut kinds: Vec<ExprKind> = Vec::new();
    kinds.push(expected);
    Error {
        reason: ErrorReason::SyntaxError(
            crate::syntax::error::Error::argument_type(span, kinds, found).reason,
        ),
        notes: Vec::new(),
    }
}

/// An error for an integer argument whose value outgrows one byte.
fn arg_value_error(span: crate::syntax::expression::Span, value: u32) -> (r: Error)
    ensures
        r.reason is SyntaxError,
        r.notes@.len() == 0,
{
    Error {
        reason: ErrorReason::SyntaxError(
            crate::syntax::error::Error::argument_value_size(span, value, (0, 255)).reason,
        ),
        notes: Vec::new(),
    }
}

/// Concatenate the bytes of the value arguments, or report the first
/// argument that is not a value.
fn build_args_payload(args: &Vec<ParsedExpr>) -> (r: Result<Vec<u8>, Error>)
    ensures
        print_args_wf(args@) ==> (r matches Ok(p) && p@ == args_payload(args@)),
        !print_args_wf(args@) ==> (r matches Err(e) && e.reason is SyntaxError && e.notes@.len()
            == 0),
{
    let mut payload: Vec<u8> = Vec::new();
    let mut i: usize = 0;
    while i < args.len()
        invariant
            0 <= i <= args@.len(),
            forall|j: int| 0 <= j < i ==> arg_is_value(#[trigger] args@[j].expr),
            payload@ == args_payload(args@.take(i as int)),
        decreases args@.len() - i,
    {
        let ghost before = payload@;
        match args[i].expression() {
            Expr::String(s) => {
                let bytes = s.as_str().as_bytes_vec();
                extend_bytes(&mut payload, &bytes);
            },
            Expr::UInt(u) => {
                if *u > 255 {
                    return Err(arg_value_error(args[i].span(), *u));
                }
                payload.push(*u as u8);
            },
            _ => {
                let found = args[i].expression_kind();
                return Err(arg_type_error(args[i].span(), ExprKind::String, found));
            },
        }
        proof {
            assert(args@.take(i as int + 1).drop_last() =~= args@.take(i as int));
            assert(args@.take(i as int + 1).last() == args@[i as int]);
            assert(payload@ =~= before + arg_bytes(args@[i as int].expr));
        }
        i += 1;
    }
    proof {
        assert(args@.take(args@.len() as int) =~= args@);
    }
    Ok(payload)
}

/// Wrap a TCU transaction around these bytes.
fn tcu_request(expr: &ParsedExpr, bytes: Vec<u8>, test: Option<MeasurementTest>) -> (r: Result<
    FrontendRequest,
    Error,
>)
    ensures
        tcu_transact(r, *expr, bytes@, test),
{
    Ok(FrontendRequest::TCUTransact(Transaction::with_tcu(expr.clone(), bytes, test)))
}

/// Wrap a printer transaction around these bytes.
fn printer_request(expr: &ParsedExpr, bytes: Vec<u8>, test: Option<MeasurementTest>) -> (r: Result<
    FrontendRequest,
    Error,
>)
    ensures
        printer_transact(r, *expr, bytes@, test),
{
    Ok(FrontendRequest::PrinterTransact(Transaction::with_printer(expr.clone(), bytes, test)))
}

/// Build the `PRINT` frame over an already expanded payload.
fn build_print(payload: &Vec<u8>) -> (r: Vec<u8>)
    requires
        2 * payload@.len() <= 255,
    ensures
        r@ == print_frame(payload@),
{
    let mut bytes: Vec<u8> = Vec::new();
    bytes.push(0x50);
    push_fmt2(&mut bytes, (2 * payload.len()) as u8);
    extend_fmt2_all(&mut bytes, payload);
    bytes.push(0x0D);
    proof {
        assert(bytes@ =~= print_frame(payload@));
    }
    bytes
}

/// Build the `SETTIMEFORMAT` frame.
fn build_settimeformat(hp: bool, u: u8) -> (r: Vec<u8>)
    ensures
        r@ == settimeformat_frame(hp, u),
{
    let mut bytes = tcu_esc_header(0x50, 0x05, false, hp);
    push_fmt2(&mut bytes, 0x74);
    push_fmt2(&mut bytes, 0x66);
    push_fmt2(&mut bytes, u);
    bytes.push(0x0D);
    proof {
        assert(bytes@ =~= settimeformat_frame(hp, u));
    }
    bytes
}

/// Build the `SETTIME` frame at this clock reading.
fn build_settime(hp: bool, now: TimeFields) -> (r: Vec<u8>)
    requires
        now.wf(),
    ensures
        r@ == settime_frame(hp, now),
{
    let clock = time_bytes(now);
    let mut bytes = tcu_esc_header(0x50, 0x15, false, hp);
    push_fmt2(&mut bytes, 0x74);
    push_fmt2(&mut bytes, 0x73);
    extend_fmt2_all(&mut bytes, &clock);
    bytes.push(0x0D);
    proof {
        assert(bytes@ =~= settime_frame(hp, now));
    }
    bytes
}

/// Build the `SETOPTION` frame.
fn build_setoption(hp: bool, o: u8, s: u8) -> (r: Vec<u8>)
    ensures
        r@ == setoption_frame(hp, o, s),
{
    let mut bytes = tcu_esc_header(0x50, 0x06, true, hp);
    push_fmt2(&mut bytes, 0x4F);
    push_fmt2(&mut bytes, o);
    push_fmt2(&mut bytes, s);
    bytes.push(0x0D);
    proof {
        assert(bytes@ =~= setoption_frame(hp, o, s));
    }
    bytes
}

/// Build a one-letter relay or test frame: the letter, the argument's hex
/// digits and a carriage return.
fn build_letter_frame(letter: u8, arg: u8) -> (r: Vec<u8>)
    ensures
        r@ == seq![letter] + fmt2(arg) + seq![0x0Du8],
{
    let mut bytes: Vec<u8> = Vec::new();
    bytes.push(letter);
    push_fmt2(&mut bytes, arg);
    bytes.push(0x0D);
    proof {
        assert(bytes@ =~= seq![letter] + fmt2(arg) + seq![0x0Du8]);
    }
    bytes
}

/// Build the `PRINTERSET` frame.
fn build_printerset(hp: bool, c: u8) -> (r: Vec<u8>)
    ensures
        r@ == printerset_frame(hp, c),
{
    let mut bytes = tcu_esc_header(0x50, 0x05, true, hp);
    push_fmt2(&mut bytes, 0x53);
    push_fmt2(&mut bytes, c);
    bytes.push(0x0D);
    proof {
        assert(bytes@ =~= printerset_frame(hp, c));
    }
    bytes
}

/// Build the `PRINTERTEST` frame.
fn build_printertest(hp: bool, c: u8) -> (r: Vec<u8>)
    ensures
        r@ == printertest_frame(hp, c),
{
    let mut bytes = tcu_esc_header(0x57, 0x05, true, hp);
    push_fmt2(&mut bytes, 0x4D);
    push_fmt2(&mut bytes, c);
    bytes.push(0x0D);
    proof {
        assert(bytes@ =~= printertest_frame(hp, c));
    }
    bytes
}

/// Build the printer's escape frames: escape, a NUL where the command
/// always carries one, another under `HPMODE`, then the tail bytes.
fn build_usb_frame(hp: bool, base_nul: bool, tail: &Vec<u8>) -> (r: Vec<u8>)
    ensures
        r@ == seq![0x1Bu8] + (if base_nul {
            seq![0x00u8]
        } else {
            Seq::<u8>::empty()
        }) + (if hp {
            seq![0x00u8]
        } else {
            Seq::<u8>::empty()
        }) + tail@,
{
    let mut bytes: Vec<u8> = Vec::new();
    bytes.push(0x1B);
    if base_nul {
        bytes.push(0x00);
    }
    if hp {
        bytes.push(0x00);
    }
    extend_bytes(&mut bytes, tail);
    proof {
        assert(bytes@ =~= seq![0x1Bu8] + (if base_nul {
            seq![0x00u8]
        } else {
            Seq::<u8>::empty()
        }) + (if hp {
            seq![0x00u8]
        } else {
            Seq::<u8>::empty()
        }) + tail@);
    }
    bytes
}

/// Extract a byte-sized integer argument, or the error naming what was
/// found instead.
fn byte_arg_of(a: &ParsedExpr) -> (r: Result<u8, Error>)
    ensures
        ((*a).expr matches Expr::UInt(u) && u <= 255) ==> r == Ok::<u8, Error>(
            ((*a).expr->UInt_0) as u8,
        ),
        !((*a).expr matches Expr::UInt(u) && u <= 255) ==> (r matches Err(e) && e.reason
            is SyntaxError && e.notes@.len() == 0),
{
    match a.expression() {
        Expr::UInt(u) => {
            if *u > 255 {
                Err(arg_value_error(a.span(), *u))
            } else {
                Ok(*u as u8)
            }
        },
        _ => Err(arg_type_error(a.span(), ExprKind::UInt, a.expression_kind())),
    }
}

/// Extract the five arguments of a test command: a byte channel, the
/// range and retries, and the failure message.
fn test_args_of(
    channel: &ParsedExpr,
    min: &ParsedExpr,
    max: &ParsedExpr,
    retries: &ParsedExpr,
    message: &ParsedExpr,
) -> (r: Result<(u8, MeasurementTest), Error>)
    ensures
        test_cmd_wf(channel, min, max, retries, message) ==> (r matches Ok((c, t)) && c
            == ((*channel).expr->UInt_0) as u8 && t == (MeasurementTest {
            expected_min: (*min).expr->UInt_0,
            expected_max: (*max).expr->UInt_0,
            retries: (*retries).expr->UInt_0,
            failure_message: (*message).expr->String_0,
        })),
        !test_cmd_wf(channel, min, max, retries, message) ==> (r matches Err(e) && e.reason
            is SyntaxError && e.notes@.len() == 0),
{
    let c = match channel.expression() {
        Expr::UInt(c) => {
            if *c > 255 {
                return Err(arg_value_error(channel.span(), *c));
            } else {
                *c as u8
            }
        },
        _ => {
            return Err(
                arg_type_error(channel.span(), ExprKind::UInt, channel.expression_kind()),
            );
        },
    };
    let mn = match min.expression() {
        Expr::UInt(mn) => *mn,
        _ => {
            return Err(arg_type_error(min.span(), ExprKind::UInt, min.expression_kind()));
        },
    };
    let mx = match max.expression() {
        Expr::UInt(mx) => *mx,
        _ => {
            return Err(arg_type_error(max.span(), ExprKind::UInt, max.expression_kind()));
        },
    };
    let rt = match retries.expression() {
        Expr::UInt(rt) => *rt,
        _ => {
            return Err(arg_type_error(retries.span(), ExprKind::UInt, retries.expression_kind()));
        },
    };
    let msg = match message.expression() {
        Expr::String(msg) => msg.clone(),
        _ => {
            return Err(
                arg_type_error(message.span(), ExprKind::String, message.expression_kind()),
            );
        },
    };
    Ok((c, MeasurementTest { expected_min: mn, expected_max: mx, retries: rt, failure_message: msg }))
}

/// The five argument nodes of a test command have the kinds the command
/// demands.
pub open spec fn test_cmd_wf(
    channel: &ParsedExpr,
    min: &ParsedExpr,
    max: &ParsedExpr,
    retries: &ParsedExpr,
    message: &ParsedExpr,
) -> bool {
    &&& (*channel).expr matches Expr::UInt(c) && c <= 255
    &&& (*min).expr is UInt
    &&& (*max).expr is UInt
    &&& (*retries).expr is UInt
    &&& (*message).expr is String
}

/// Evaluate one statement against a given clock reading, exactly as
/// `eval_step` describes: the statement's request or its error, with
/// `HPMODE` toggling the state.
#[verifier::rlimit(60)]
pub fn evaluate_at(expr: &ParsedExpr, state: &mut EvalState, now: TimeFields) -> (r: Result<
    FrontendRequest,
    Error,
>)
    requires
        now.wf(),
    ensures
        eval_step(*expr, old(state).hpmode, now, final(state).hpmode, r),
{
    let hp = state.hpmode;
    match expr.expression() {
        Expr::String(_) => Err(orphan_error(expr)),
        Expr::UInt(_) => Err(orphan_error(expr)),
        Expr::ScriptComment(_) => Ok(FrontendRequest::NoAction),
        Expr::HPMode => {
            state.hpmode = !state.hpmode;
            Ok(FrontendRequest::NoAction)
        },
        Expr::Comment(a) => match a.expression() {
            Expr::String(s) => Ok(FrontendRequest::GuiPrint(s.clone())),
            _ => Err(arg_type_error(a.span(), ExprKind::String, a.expression_kind())),
        },
        Expr::Wait(a) => match a.expression() {
            Expr::UInt(ms) => Ok(FrontendRequest::Wait(*ms as u64)),
            _ => Err(arg_type_error(a.span(), ExprKind::UInt, a.expression_kind())),
        },
        Expr::OpenDialog(a) => match a.expression() {
            Expr::String(s) => Ok(
                FrontendRequest::GuiDialogue { kind: Dialog::Notification, message: s.clone() },
            ),
            _ => Err(arg_type_error(a.span(), ExprKind::String, a.expression_kind())),
        },
        Expr::WaitDialog(a) => match a.expression() {
            Expr::String(s) => Ok(
                FrontendRequest::GuiDialogue { kind: Dialog::ManualInput, message: s.clone() },
            ),
            _ => Err(arg_type_error(a.span(), ExprKind::String, a.expression_kind())),
        },
        Expr::Flush => Ok(FrontendRequest::TCUFlush),
        Expr::Protocol => Ok(FrontendRequest::NoAction),
        Expr::Print(args) => {
            let payload = match build_args_payload(args) {
                Ok(payload) => payload,
                Err(error) => {
                    return Err(error);
                },
            };
            if payload.len() > 127 {
                let value: u32 = if payload.len() <= 2147483647 {
                    (2 * payload.len()) as u32
                } else {
                    u32::MAX
                };
                return Err(
                    Error {
                        reason: ErrorReason::SyntaxError(
                            crate::syntax::error::Error::argument_value_size(
                                expr.span(),
                                value,
                                (0, 255),
                            ).reason,
                        ),
                        notes: Vec::new(),
                    },
                );
            }
            let bytes = build_print(&payload);
            tcu_request(expr, bytes, None)
        },
        Expr::SetTimeFormat(a) => {
            let u = match byte_arg_of(a) {
                Ok(u) => u,
                Err(error) => {
                    return Err(error);
                },
            };
            tcu_request(expr, build_settimeformat(hp, u), None)
        },
        Expr::SetTime => tcu_request(expr, build_settime(hp, now), None),
        Expr::SetOption { option, setting } => {
            let o = match byte_arg_of(option) {
                Ok(o) => o,
                Err(error) => {
                    return Err(error);
                },
            };
            let s = match byte_arg_of(setting) {
                Ok(s) => s,
                Err(error) => {
                    return Err(error);
                },
            };
            tcu_request(expr, build_setoption(hp, o, s), None)
        },
        Expr::TCUClose(a) => {
            let u = match byte_arg_of(a) {
                Ok(u) => u,
                Err(error) => {
                    return Err(error);
                },
            };
            tcu_request(expr, build_letter_frame(0x43, u), None)
        },
        Expr::TCUOpen(a) => {
            let u = match byte_arg_of(a) {
                Ok(u) => u,
                Err(error) => {
                    return Err(error);
                },
            };
            tcu_request(expr, build_letter_frame(0x4F, u), None)
        },
        Expr::TCUTest { channel, min, max, retries, message } => {
            let (c, test) = match test_args_of(channel, min, max, retries, message) {
                Ok(parts) => parts,
                Err(error) => {
                    return Err(error);
                },
            };
            tcu_request(expr, build_letter_frame(0x4D, c), Some(test))
        },
        Expr::PrinterSet(a) => {
            let u = match byte_arg_of(a) {
                Ok(u) => u,
                Err(error) => {
                    return Err(error);
                },
            };
            tcu_request(expr, build_printerset(hp, u), None)
        },
        Expr::PrinterTest { channel, min, max, retries, message } => {
            let (c, test) = match test_args_of(channel, min, max, retries, message) {
                Ok(parts) => parts,
                Err(error) => {
                    return Err(error);
                },
            };
            tcu_request(expr, build_printertest(hp, c), Some(test))
        },
        Expr::IssueTest(_) => Ok(FrontendRequest::NoAction),
        Expr::TestResult { .. } => Ok(FrontendRequest::NoAction),
        Expr::USBOpen => Ok(FrontendRequest::PrinterOpen),
        Expr::USBClose => Ok(FrontendRequest::PrinterClose),
        Expr::USBPrint(args) => {
            let payload = match build_args_payload(args) {
                Ok(payload) => payload,
                Err(error) => {
                    return Err(error);
                },
            };
            printer_request(expr, payload, None)
        },
        Expr::USBSetTimeFormat(a) => {
            let u = match byte_arg_of(a) {
                Ok(u) => u,
                Err(error) => {
                    return Err(error);
                },
            };
            let mut tail: Vec<u8> = Vec::new();
            tail.push(0x74);
            tail.push(0x66);
            tail.push(u);
            let bytes = build_usb_frame(hp, false, &tail);
            proof {
                assert(bytes@ =~= usb_settimeformat_frame(hp, u));
            }
            printer_request(expr, bytes, None)
        },
        Expr::USBSetTime => {
            let clock = time_bytes(now);
            let mut tail: Vec<u8> = Vec::new();
            tail.push(0x74);
            tail.push(0x73);
            extend_bytes(&mut tail, &clock);
            let bytes = build_usb_frame(hp, false, &tail);
            proof {
                assert(bytes@ =~= usb_settime_frame(hp, now));
            }
            printer_request(expr, bytes, None)
        },
        Expr::USBSetOption { option, setting } => {
            let o = match byte_arg_of(option) {
                Ok(o) => o,
                Err(error) => {
                    return Err(error);
                },
            };
            let s = match byte_arg_of(setting) {
                Ok(s) => s,
                Err(error) => {
                    return Err(error);
                },
            };
            let mut tail: Vec<u8> = Vec::new();
            tail.push(0x4F);
            tail.push(o);
            tail.push(s);
            let bytes = build_usb_frame(hp, true, &tail);
            proof {
                assert(bytes@ =~= usb_setoption_frame(hp, o, s));
            }
            printer_request(expr, bytes, None)
        },
        Expr::USBPrinterSet(a) => {
            let u = match byte_arg_of(a) {
                Ok(u) => u,
                Err(error) => {
                    return Err(error);
                },
            };
            let mut tail: Vec<u8> = Vec::new();
            tail.push(0x53);
            tail.push(u);
            let bytes = build_usb_frame(hp, true, &tail);
            proof {
                assert(bytes@ =~= usb_printerset_frame(hp, u));
            }
            printer_request(expr, bytes, None)
        },
        Expr::USBPrinterTest { channel, min, max, retries, message } => {
            let (c, test) = match test_args_of(channel, min, max, retries, message) {
                Ok(parts) => parts,
                Err(error) => {
                    return Err(error);
                },
            };
            let mut tail: Vec<u8> = Vec::new();
            tail.push(0x4D);
            tail.push(c);
            let bytes = build_usb_frame(hp, true, &tail);
            proof {
                assert(bytes@ =~= usb_printertest_frame(hp, c));
            }
            printer_request(expr, bytes, Some(test))
        },
    }
}

/// A value standing alone where a command should be.
fn orphan_error(expr: &ParsedExpr) -> (r: Error)
    ensures
        r.reason is SyntaxError,
        r.notes@.len() == 0,
{
    Error {
        reason: ErrorReason::SyntaxError(
            SyntaxErrorReason::UnrecognisedCommand { span: expr.span() },
        ),
        notes: Vec::new(),
    }
}

/// The shared head of the escape-sequence TCU frames: the prefix byte,
/// the length as hex digits, the escape's digits, the digits of a NUL
/// where the frame always carries one, and of one more under `HPMODE`.
fn tcu_esc_header(prefix: u8, length: u8, base_nul: bool, hp: bool) -> (r: Vec<u8>)
    ensures
        r@ == seq![prefix] + fmt2(length) + fmt2(0x1B) + (if base_nul {
            fmt2(0x00)
        } else {
            Seq::empty()
        }) + (if hp {
            fmt2(0x00)
        } else {
            Seq::empty()
        }),
{
    let mut v: Vec<u8> = Vec::new();
    v.push(prefix);
    push_fmt2(&mut v, length);
    push_fmt2(&mut v, 0x1B);
    if base_nul {
        push_fmt2(&mut v, 0x00);
    }
    if hp {
        push_fmt2(&mut v, 0x00);
    }
    proof {
        assert(v@ =~= seq![prefix] + fmt2(length) + fmt2(0x1B) + (if base_nul {
            fmt2(0x00)
        } else {
            Seq::empty()
        }) + (if hp {
            fmt2(0x00)
        } else {
            Seq::empty()
        }));
    }
    v
}

/// Evaluate one statement: read the clock when the statement needs it,
/// then evaluate against that reading. For some wall-clock instant the
/// result is exactly what `eval_step` describes; for every statement but
/// the time commands it does not depend on the clock at all.
pub fn evaluate(expr: &ParsedExpr, state: &mut EvalState) -> (r: Result<FrontendRequest, Error>)
    ensures
        exists|now: TimeFields|
            now.wf() && #[trigger] eval_step(*expr, old(state).hpmode, now, final(state).hpmode, r),
{
    let needs_clock = match expr.expression() {
        Expr::SetTime => true,
        Expr::USBSetTime => true,
        _ => false,
    };
    let now = if needs_clock {
        local_time_fields()
    } else {
        TimeFields { hour: 0, minute: 0, second: 0, day: 1, month: 1, year: 2000 }
    };
    let r = evaluate_at(expr, state, now);
    proof {
        assert(now.wf() && eval_step(*expr, old(state).hpmode, now, final(state).hpmode, r));
    }
    r
}

/// The encoder is total: a well-formed statement always yields a request,
/// except a `PRINT` whose expanded payload outgrows the length byte, which
/// yields its error; an ill-formed tree, of which the parser only ever
/// hands out a bare value standing alone, yields an error too. No
/// statement is left without an answer.
pub proof fn lemma_encoder_total(
    e: ParsedExpr,
    hp: bool,
    now: TimeFields,
    hp_after: bool,
    r: Result<FrontendRequest, Error>,
)
    requires
        eval_step(e, hp, now, hp_after, r),
    ensures
        statement_wf(e.expr) && !(e.expr matches Expr::Print(args) && 2 * args_payload(args@).len()
            > 255) ==> r is Ok,
        statement_wf(e.expr) && (e.expr matches Expr::Print(args) && 2 * args_payload(args@).len()
            > 255) ==> (r matches Err(er) && er.reason is SyntaxError),
        !statement_wf(e.expr) ==> (r matches Err(er) && er.reason is SyntaxError),
{
}

/// How many `HPMODE` statements a script prefix holds.
pub open spec fn hpmode_count(stmts: Seq<ParsedExpr>) -> nat
    decreases stmts.len(),
{
    if stmts.len() == 0 {
        0
    } else {
        hpmode_count(stmts.drop_last()) + (if stmts.last().expr is HPMode {
            1nat
        } else {
            0nat
        })
    }
}

/// The toggle state after a sequence of statements, folding the update
/// that `eval_step` fixes for every single statement.
pub open spec fn hpmode_after(stmts: Seq<ParsedExpr>, init: bool) -> bool
    decreases stmts.len(),
{
    if stmts.len() == 0 {
        init
    } else {
        let prev = hpmode_after(stmts.drop_last(), init);
        if stmts.last().expr is HPMode {
            !prev
        } else {
            prev
        }
    }
}

/// Evaluating one statement toggles the mode exactly on `HPMODE` and
/// leaves it alone otherwise.
pub proof fn lemma_eval_step_hpmode(
    e: ParsedExpr,
    hp: bool,
    now: TimeFields,
    hp_after: bool,
    r: Result<FrontendRequest, Error>,
)
    requires
        eval_step(e, hp, now, hp_after, r),
    ensures
        hp_after == (if e.expr is HPMode {
            !hp
        } else {
            hp
        }),
{
}

/// After an even number of `HPMODE` statements the toggle is back at its
/// initial state; after an odd number it is inverted. With the update
/// that `eval_step` fixes per statement, a script that starts with the
/// toggle off leaves it off exactly when it holds an even number of
/// `HPMODE` statements.
pub proof fn lemma_hpmode_round_trip(stmts: Seq<ParsedExpr>, init: bool)
    ensures
        hpmode_after(stmts, init) == (if hpmode_count(stmts) % 2 == 0 {
            init
        } else {
            !init
        }),
    decreases stmts.len(),
{
    if stmts.len() > 0 {
        lemma_hpmode_round_trip(stmts.drop_last(), init);
    }
}

} // verus!
