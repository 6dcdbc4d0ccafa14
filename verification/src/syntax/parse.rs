use vstd::prelude::*;

use crate::render::push_char;
use crate::syntax::error::{Error, ErrorNote, ErrorReason};
use crate::syntax::evaluate::{arg_is_value, print_args_wf, statement_wf};
use crate::syntax::expression::{Expr, ExprKind, ParsedExpr, Span};

verus! {

/// Every span of the node and of the nodes under it lies within a source
/// of `limit` characters.
pub open spec fn spans_within(p: ParsedExpr, limit: nat) -> bool
    decreases p, 2int,
{
    p.span.within(limit) && expr_spans_within(p.expr, limit)
}

/// Every span of the argument nodes of an expression lies within `limit`.
pub open spec fn expr_spans_within(e: Expr, limit: nat) -> bool
    decreases e, 1int,
{
    match e {
        Expr::String(_) => true,
        Expr::UInt(_) => true,
        Expr::ScriptComment(_) => true,
        Expr::HPMode => true,
        Expr::Comment(x) => spans_within(*x, limit),
        Expr::Wait(x) => spans_within(*x, limit),
        Expr::OpenDialog(x) => spans_within(*x, limit),
        Expr::WaitDialog(x) => spans_within(*x, limit),
        Expr::Flush => true,
        Expr::Protocol => true,
        Expr::Print(xs) => seq_spans_within(xs@, limit),
        Expr::SetTimeFormat(x) => spans_within(*x, limit),
        Expr::SetTime => true,
        Expr::SetOption { option, setting } => spans_within(*option, limit) && spans_within(
            *setting,
            limit,
        ),
        Expr::TCUClose(x) => spans_within(*x, limit),
        Expr::TCUOpen(x) => spans_within(*x, limit),
        Expr::TCUTest { channel, min, max, retries, message } => spans_within(*channel, limit)
            && spans_within(*min, limit) && spans_within(*max, limit) && spans_within(
            *retries,
            limit,
        ) && spans_within(*message, limit),
        Expr::PrinterSet(x) => spans_within(*x, limit),
        Expr::PrinterTest { channel, min, max, retries, message } => spans_within(*channel, limit)
            && spans_within(*min, limit) && spans_within(*max, limit) && spans_within(
            *retries,
            limit,
        ) && spans_within(*message, limit),
        Expr::IssueTest(x) => spans_within(*x, limit),
        Expr::TestResult { min, max, message } => spans_within(*min, limit) && spans_within(
            *max,
            limit,
        ) && spans_within(*message, limit),
        Expr::USBOpen => true,
        Expr::USBClose => true,
        Expr::USBPrint(xs) => seq_spans_within(xs@, limit),
        Expr::USBSetTimeFormat(x) => spans_within(*x, limit),
        Expr::USBSetTime => true,
        Expr::USBSetOption { option, setting } => spans_within(*option, limit) && spans_within(
            *setting,
            limit,
        ),
        Expr::USBPrinterSet(x) => spans_within(*x, limit),
        Expr::USBPrinterTest { channel, min, max, retries, message } => spans_within(
            *channel,
            limit,
        ) && spans_within(*min, limit) && spans_within(*max, limit) && spans_within(*retries, limit)
            && spans_within(*message, limit),
    }
}

/// Every span of a list of argument nodes lies within `limit`.
pub open spec fn seq_spans_within(s: Seq<ParsedExpr>, limit: nat) -> bool
    decreases s, 3int,
{
    s.len() == 0 || (spans_within(s[0], limit) && seq_spans_within(s.drop_first(), limit))
}

/// The keyword that introduces each command.
pub open spec fn command_keyword(k: ExprKind) -> Seq<char> {
    match k {
        ExprKind::String => Seq::empty(),
        ExprKind::UInt => Seq::empty(),
        ExprKind::ScriptComment => Seq::empty(),
        ExprKind::HPMode => "HPMODE"@,
        ExprKind::Comment => "COMMENT"@,
        ExprKind::Wait => "WAIT"@,
        ExprKind::OpenDialog => "OPENDIALOG"@,
        ExprKind::WaitDialog => "WAITDIALOG"@,
        ExprKind::Flush => "FLUSH"@,
        ExprKind::Protocol => "PROTOCOL"@,
        ExprKind::Print => "PRINT"@,
        ExprKind::SetTimeFormat => "SETTIMEFORMAT"@,
        ExprKind::SetTime => "SETTIME"@,
        ExprKind::SetOption => "SETOPTION"@,
        ExprKind::TCUClose => "TCUCLOSE"@,
        ExprKind::TCUOpen => "TCUOPEN"@,
        ExprKind::TCUTest => "TCUTEST"@,
        ExprKind::PrinterSet => "PRINTERSET"@,
        ExprKind::PrinterTest => "PRINTERTEST"@,
        ExprKind::IssueTest => "ISSUETEST"@,
        ExprKind::TestResult => "TESTRESULT"@,
        ExprKind::USBOpen => "USBOPEN"@,
        ExprKind::USBClose => "USBCLOSE"@,
        ExprKind::USBPrint => "USBPRINT"@,
        ExprKind::USBSetTimeFormat => "USBSETTIMEFORMAT"@,
        ExprKind::USBSetTime => "USBSETTIME"@,
        ExprKind::USBSetOption => "USBSETOPTION"@,
        ExprKind::USBPrinterSet => "USBPRINTERSET"@,
        ExprKind::USBPrinterTest => "USBPRINTERTEST"@,
    }
}

/// The command's keyword stands in the source at the start of the span.
pub open spec fn keyword_at(span: Span, k: ExprKind, src: Seq<char>) -> bool {
    &&& span.start + command_keyword(k).len() <= src.len()
    &&& src.subrange(span.start as int, span.start + command_keyword(k).len()) == command_keyword(
        k,
    )
}

/// The node renders what the source holds at its span: a string carries
/// the characters between its quotes, an integer the value of its decimal
/// or hexadecimal digits, a comment its line after the semicolon, and a
/// command starts with its keyword, its argument nodes again matching the
/// source.
pub open spec fn matches_source(p: ParsedExpr, src: Seq<char>) -> bool
    decreases p, 2int,
{
    match p.expr {
        Expr::String(s) => p.span.start < p.span.end <= src.len() && src[p.span.start as int]
            == '"' && s@ == src.subrange(p.span.start + 1, p.span.end - 1),
        Expr::UInt(v) => p.span.start < p.span.end <= src.len() && (src[p.span.start as int] == '$'
            ==> v == hex_char_seq_val(src.subrange(p.span.start + 1, p.span.end as int)))
            && (src[p.span.start as int] != '$' ==> v == dec_seq_val(
            src.subrange(p.span.start as int, p.span.end as int),
        )),
        Expr::ScriptComment(c) => p.span.start < p.span.end <= src.len()
            && src[p.span.start as int] == ';' && c@ == src.subrange(
            p.span.start + 1,
            p.span.end as int,
        ),
        _ => keyword_at(p.span, p.expr.kind(), src) && expr_args_match_source(p.expr, src),
    }
}

/// The argument nodes of a command render what the source holds.
pub open spec fn expr_args_match_source(e: Expr, src: Seq<char>) -> bool
    decreases e, 1int,
{
    match e {
        Expr::String(_) => true,
        Expr::UInt(_) => true,
        Expr::ScriptComment(_) => true,
        Expr::HPMode => true,
        Expr::Comment(x) => matches_source(*x, src),
        Expr::Wait(x) => matches_source(*x, src),
        Expr::OpenDialog(x) => matches_source(*x, src),
        Expr::WaitDialog(x) => matches_source(*x, src),
        Expr::Flush => true,
        Expr::Protocol => true,
        Expr::Print(xs) => seq_matches_source(xs@, src),
        Expr::SetTimeFormat(x) => matches_source(*x, src),
        Expr::SetTime => true,
        Expr::SetOption { option, setting } => matches_source(*option, src) && matches_source(
            *setting,
            src,
        ),
        Expr::TCUClose(x) => matches_source(*x, src),
        Expr::TCUOpen(x) => matches_source(*x, src),
        Expr::TCUTest { channel, min, max, retries, message } => matches_source(*channel, src)
            && matches_source(*min, src) && matches_source(*max, src) && matches_source(
            *retries,
            src,
        ) && matches_source(*message, src),
        Expr::PrinterSet(x) => matches_source(*x, src),
        Expr::PrinterTest { channel, min, max, retries, message } => matches_source(*channel, src)
            && matches_source(*min, src) && matches_source(*max, src) && matches_source(
            *retries,
            src,
        ) && matches_source(*message, src),
        Expr::IssueTest(x) => matches_source(*x, src),
        Expr::TestResult { min, max, message } => matches_source(*min, src) && matches_source(
            *max,
            src,
        ) && matches_source(*message, src),
        Expr::USBOpen => true,
        Expr::USBClose => true,
        Expr::USBPrint(xs) => seq_matches_source(xs@, src),
        Expr::USBSetTimeFormat(x) => matches_source(*x, src),
        Expr::USBSetTime => true,
        Expr::USBSetOption { option, setting } => matches_source(*option, src) && matches_source(
            *setting,
            src,
        ),
        Expr::USBPrinterSet(x) => matches_source(*x, src),
        Expr::USBPrinterTest { channel, min, max, retries, message } => matches_source(
            *channel,
            src,
        ) && matches_source(*min, src) && matches_source(*max, src) && matches_source(*retries, src)
            && matches_source(*message, src),
    }
}

/// Every node of an argument list renders what the source holds.
pub open spec fn seq_matches_source(s: Seq<ParsedExpr>, src: Seq<char>) -> bool
    decreases s, 3int,
{
    s.len() == 0 || (matches_source(s[0], src) && seq_matches_source(s.drop_first(), src))
}

/// What the parser may hand out: a well-formed command, a comment, or a
/// bare value standing as its own statement.
pub open spec fn parsed_wf(e: Expr) -> bool {
    ||| statement_wf(e)
    ||| e matches Expr::String(_)
    ||| e matches Expr::UInt(_)
}

/// Inline whitespace: a space or a tab, but not a line break.
pub open spec fn is_inline_ws(c: char) -> bool {
    c == ' ' || c == '\t'
}

/// A line break character.
pub open spec fn is_line_break(c: char) -> bool {
    c == '\n' || c == '\r'
}

/// The position after any inline whitespace that starts at `pos`.
pub open spec fn inline_end(src: Seq<char>, pos: int) -> int
    decreases src.len() - pos,
{
    if 0 <= pos < src.len() && is_inline_ws(src[pos]) {
        inline_end(src, pos + 1)
    } else {
        pos
    }
}

/// The position after any blank characters that start at `pos`.
pub open spec fn blank_end(src: Seq<char>, pos: int) -> int
    decreases src.len() - pos,
{
    if 0 <= pos < src.len() && is_blank_char(src[pos]) {
        blank_end(src, pos + 1)
    } else {
        pos
    }
}

/// The position after the word characters that start at `pos`.
pub open spec fn word_scan_end(src: Seq<char>, pos: int) -> int
    decreases src.len() - pos,
{
    if 0 <= pos < src.len() && (('A' <= src[pos] && src[pos] <= 'Z') || ('a' <= src[pos] && src[pos]
        <= 'z') || ('0' <= src[pos] && src[pos] <= '9') || src[pos] == '_') {
        word_scan_end(src, pos + 1)
    } else {
        pos
    }
}

/// The position of the next line break at or after `pos`, or the end of
/// the source.
pub open spec fn line_scan_end(src: Seq<char>, pos: int) -> int
    decreases src.len() - pos,
{
    if 0 <= pos < src.len() && !is_line_break(src[pos]) {
        line_scan_end(src, pos + 1)
    } else {
        pos
    }
}

/// The position of the next double quote at or after `pos`, or the end of
/// the source.
pub open spec fn quote_scan_end(src: Seq<char>, pos: int) -> int
    decreases src.len() - pos,
{
    if 0 <= pos < src.len() && src[pos] != '"' {
        quote_scan_end(src, pos + 1)
    } else {
        pos
    }
}

/// The position after the decimal digits that start at `pos`.
pub open spec fn dec_scan_end(src: Seq<char>, pos: int) -> int
    decreases src.len() - pos,
{
    if 0 <= pos < src.len() && is_dec_digit_char(src[pos]) {
        dec_scan_end(src, pos + 1)
    } else {
        pos
    }
}

/// The position after the hexadecimal digits that start at `pos`.
pub open spec fn hex_scan_end(src: Seq<char>, pos: int) -> int
    decreases src.len() - pos,
{
    if 0 <= pos < src.len() && is_hex_digit_char(src[pos]) {
        hex_scan_end(src, pos + 1)
    } else {
        pos
    }
}

/// Whether the character at `pos` may begin a value.
pub open spec fn value_start(src: Seq<char>, pos: int) -> bool {
    0 <= pos < src.len() && (src[pos] == '"' || src[pos] == '$' || is_dec_digit_char(src[pos]))
}

/// Where reading one value from `pos` ends, and whether it succeeds: a
/// string must reach its closing quote, digits must be present after a
/// dollar sign, and an integer must fit thirty-two bits.
pub open spec fn value_scan(src: Seq<char>, pos: int) -> (bool, int) {
    if !(0 <= pos < src.len()) {
        (false, pos)
    } else if src[pos] == '"' {
        let q = quote_scan_end(src, pos + 1);
        if q >= src.len() {
            (false, q)
        } else {
            (true, q + 1)
        }
    } else if src[pos] == '$' {
        let h = hex_scan_end(src, pos + 1);
        (h > pos + 1 && hex_char_seq_val(src.subrange(pos + 1, h)) <= u32::MAX, h)
    } else if is_dec_digit_char(src[pos]) {
        let d = dec_scan_end(src, pos);
        (dec_seq_val(src.subrange(pos, d)) <= u32::MAX, d)
    } else {
        (false, pos)
    }
}

/// An ASCII decimal digit.
pub open spec fn is_dec_digit_char(c: char) -> bool {
    '0' <= c <= '9'
}

/// An ASCII hexadecimal digit.
pub open spec fn is_hex_digit_char(c: char) -> bool {
    ('0' <= c <= '9') || ('A' <= c <= 'F') || ('a' <= c <= 'f')
}

/// A blank character: inline whitespace or a line break.
pub open spec fn is_blank_char(c: char) -> bool {
    is_inline_ws(c) || is_line_break(c)
}

/// The value of one decimal digit character.
pub open spec fn dec_digit_val(c: char) -> nat
    recommends
        is_dec_digit_char(c),
{
    ((c as u32) - 0x30) as nat
}

/// The value of a string of decimal digit characters, most significant
/// first.
pub open spec fn dec_seq_val(s: Seq<char>) -> nat
    decreases s.len(),
{
    if s.len() == 0 {
        0
    } else {
        dec_seq_val(s.drop_last()) * 10 + dec_digit_val(s.last())
    }
}

/// The value of one hexadecimal digit character.
pub open spec fn hex_digit_char_val(c: char) -> nat
    recommends
        is_hex_digit_char(c),
{
    if '0' <= c <= '9' {
        ((c as u32) - 0x30) as nat
    } else if 'A' <= c <= 'F' {
        ((c as u32) - 0x41 + 10) as nat
    } else if 'a' <= c <= 'f' {
        ((c as u32) - 0x61 + 10) as nat
    } else {
        0
    }
}

/// The value of a string of hexadecimal digit characters, most
/// significant first.
pub open spec fn hex_char_seq_val(s: Seq<char>) -> nat
    decreases s.len(),
{
    if s.len() == 0 {
        0
    } else {
        hex_char_seq_val(s.drop_last()) * 16 + hex_digit_char_val(s.last())
    }
}

/// The value of a prefix of a decimal digit string never exceeds the
/// value of the whole string.
proof fn lemma_dec_seq_prefix_le(s: Seq<char>, k: int)
    requires
        0 <= k <= s.len(),
    ensures
        dec_seq_val(s.take(k)) <= dec_seq_val(s),
    decreases s.len() - k,
{
    if k == s.len() {
        assert(s.take(k) =~= s);
    } else {
        assert(s.take(k + 1).drop_last() =~= s.take(k));
        assert(s.take(k + 1).last() == s[k]);
        lemma_dec_seq_prefix_le(s, k + 1);
    }
}

/// The value of a prefix of a hexadecimal digit string never exceeds the
/// value of the whole string.
proof fn lemma_hex_seq_prefix_le(s: Seq<char>, k: int)
    requires
        0 <= k <= s.len(),
    ensures
        hex_char_seq_val(s.take(k)) <= hex_char_seq_val(s),
    decreases s.len() - k,
{
    if k == s.len() {
        assert(s.take(k) =~= s);
    } else {
        assert(s.take(k + 1).drop_last() =~= s.take(k));
        assert(s.take(k + 1).last() == s[k]);
        lemma_hex_seq_prefix_le(s, k + 1);
    }
}

/// A hexadecimal digit scan never moves backwards nor past the end.
proof fn lemma_hex_scan_bounds(src: Seq<char>, pos: int)
    requires
        0 <= pos <= src.len(),
    ensures
        pos <= hex_scan_end(src, pos) <= src.len(),
    decreases src.len() - pos,
{
    if pos < src.len() && is_hex_digit_char(src[pos]) {
        lemma_hex_scan_bounds(src, pos + 1);
    }
}

/// A decimal digit scan never moves backwards nor past the end.
proof fn lemma_dec_scan_bounds(src: Seq<char>, pos: int)
    requires
        0 <= pos <= src.len(),
    ensures
        pos <= dec_scan_end(src, pos) <= src.len(),
    decreases src.len() - pos,
{
    if pos < src.len() && is_dec_digit_char(src[pos]) {
        lemma_dec_scan_bounds(src, pos + 1);
    }
}

/// Collect the characters of the source.
fn chars_vec(s: &str) -> (r: Vec<char>)
    ensures
        r@ == s@,
{
    let n = s.unicode_len();
    let mut r: Vec<char> = Vec::new();
    let mut i: usize = 0;
    while i < n
        invariant
            0 <= i <= s@.len(),
            n == s@.len(),
            r@ =~= s@.take(i as int),
        decreases n - i,
    {
        r.push(s.get_char(i));
        proof {
            assert(r@ =~= s@.take(i as int + 1));
        }
        i += 1;
    }
    proof {
        assert(r@ =~= s@);
    }
    r
}

/// Build a string out of a range of source characters.
fn string_of_range(cs: &Vec<char>, from: usize, to: usize) -> (r: String)
    requires
        from <= to <= cs@.len(),
    ensures
        r@ == cs@.subrange(from as int, to as int),
{
    let mut r = String::new();
    let mut i: usize = from;
    while i < to
        invariant
            from <= i <= to <= cs@.len(),
            r@ =~= cs@.subrange(from as int, i as int),
        decreases to - i,
    {
        push_char(&mut r, cs[i]);
        proof {
            assert(r@ =~= cs@.subrange(from as int, i as int + 1));
        }
        i += 1;
    }
    r
}

/// Move past inline whitespace.
fn skip_inline_ws(cs: &Vec<char>, pos: usize) -> (r: usize)
    requires
        pos <= cs@.len(),
    ensures
        pos <= r <= cs@.len(),
        r == inline_end(cs@, pos as int),
        forall|j: int| pos <= j < r ==> is_inline_ws(cs@[j]),
        r < cs@.len() ==> !is_inline_ws(cs@[r as int]),
{
    let mut p = pos;
    while p < cs.len() && (cs[p] == ' ' || cs[p] == '\t')
        invariant
            pos <= p <= cs@.len(),
            inline_end(cs@, pos as int) == inline_end(cs@, p as int),
            forall|j: int| pos <= j < p ==> is_inline_ws(cs@[j]),
        decreases cs@.len() - p,
    {
        p += 1;
    }
    p
}

/// Move past whitespace of any kind, line breaks included.
fn skip_blank(cs: &Vec<char>, pos: usize) -> (r: usize)
    requires
        pos <= cs@.len(),
    ensures
        pos <= r <= cs@.len(),
        r == blank_end(cs@, pos as int),
        forall|j: int| pos <= j < r ==> is_blank_char(cs@[j]),
        r < cs@.len() ==> !is_blank_char(cs@[r as int]),
{
    let mut p = pos;
    while p < cs.len() && (cs[p] == ' ' || cs[p] == '\t' || cs[p] == '\n' || cs[p] == '\r')
        invariant
            pos <= p <= cs@.len(),
            blank_end(cs@, pos as int) == blank_end(cs@, p as int),
            forall|j: int| pos <= j < p ==> is_blank_char(cs@[j]),
        decreases cs@.len() - p,
    {
        p += 1;
    }
    p
}

/// Whether the source carries exactly this word at the given range.
fn range_is(cs: &Vec<char>, from: usize, to: usize, word: &str) -> (r: bool)
    requires
        from <= to <= cs@.len(),
    ensures
        r == (cs@.subrange(from as int, to as int) == word@),
{
    let n = word.unicode_len();
    if to - from != n {
        proof {
            assert(cs@.subrange(from as int, to as int).len() != word@.len());
        }
        return false;
    }
    let mut i: usize = 0;
    while i < n
        invariant
            from <= to <= cs@.len(),
            to - from == n == word@.len(),
            0 <= i <= n,
            forall|j: int| 0 <= j < i ==> cs@.subrange(from as int, to as int)[j] == word@[j],
        decreases n - i,
    {
        if cs[from + i] != word.get_char(i) {
            proof {
                assert(cs@.subrange(from as int, to as int)[i as int] != word@[i as int]);
            }
            return false;
        }
        i += 1;
    }
    proof {
        assert(cs@.subrange(from as int, to as int) =~= word@);
    }
    true
}

/// The one shape of a fatal parse failure: an unrecognised-command error
/// whose span lies within the source, with no notes.
pub open spec fn fatal_shape(e: Error, limit: nat) -> bool {
    &&& e.reason matches ErrorReason::UnrecognisedCommand { span } && span.within(limit)
    &&& e.notes@.len() == 0
}

/// A fatal parse failure: the statement at this position cannot be read.
fn unrecognised(from: usize, to: usize) -> (r: Error)
    ensures
        r.reason == (ErrorReason::UnrecognisedCommand {
            span: (Span { start: from, end: to }),
        }),
        r.notes@.len() == 0,
{
    Error::unrecognised_command(Span { start: from, end: to })
}

/// Parse one value: a string between double quotes, or an unsigned
/// integer, decimal or hexadecimal after a dollar sign. A string carries
/// exactly the characters between its quotes; an integer carries exactly
/// the value of its digits.
fn parse_value(cs: &Vec<char>, pos: usize) -> (r: Result<(ParsedExpr, usize), Error>)
    requires
        pos <= cs@.len(),
    ensures
        r is Ok <==> value_scan(cs@, pos as int).0,
        r matches Ok(t) ==> {
            &&& pos < t.1 <= cs@.len()
            &&& t.1 == value_scan(cs@, pos as int).1
            &&& t.0.span == (Span { start: pos, end: t.1 })
            &&& (t.0.expr matches Expr::String(_) || t.0.expr matches Expr::UInt(_))
            &&& (cs@[pos as int] == '"' ==> t.0.expr is String)
            &&& (cs@[pos as int] != '"' ==> t.0.expr is UInt)
            &&& matches_source(t.0, cs@)
        },
        r matches Err(e) ==> fatal_shape(e, cs@.len()),
{
    if pos >= cs.len() {
        return Err(unrecognised(pos, pos));
    }
    let c = cs[pos];
    if c == '"' {
        // A string runs to the next double quote; there are no escapes.
        let mut p = pos + 1;
        while p < cs.len() && cs[p] != '"'
            invariant
                pos + 1 <= p <= cs@.len(),
                quote_scan_end(cs@, pos as int + 1) == quote_scan_end(cs@, p as int),
            decreases cs@.len() - p,
        {
            p += 1;
        }
        proof {
            assert(quote_scan_end(cs@, p as int) == p as int);
        }
        if p >= cs.len() {
            // The string is never closed.
            return Err(unrecognised(pos, p));
        }
        let content = string_of_range(cs, pos + 1, p);
        return Ok(
            (
                ParsedExpr {
                    expr: Expr::String(content),
                    span: Span { start: pos, end: p + 1 },
                },
                p + 1,
            ),
        );
    }
    if c == '$' {
        // Hexadecimal digits; leading zeroes are free.
        let mut p = pos + 1;
        let mut value: u32 = 0;
        let mut any = false;
        loop
            invariant
                pos < cs@.len(),
                cs@[pos as int] == '$',
                pos + 1 <= p <= cs@.len(),
                hex_scan_end(cs@, pos as int + 1) == hex_scan_end(cs@, p as int),
                value == hex_char_seq_val(cs@.subrange(pos as int + 1, p as int)),
                any <==> p > pos + 1,
            ensures
                pos + 1 <= p <= cs@.len(),
                hex_scan_end(cs@, pos as int + 1) == p,
                value == hex_char_seq_val(cs@.subrange(pos as int + 1, p as int)),
                any <==> p > pos + 1,
            decreases cs@.len() - p,
        {
            if p >= cs.len() {
                proof {
                    assert(hex_scan_end(cs@, p as int) == p as int);
                }
                break;
            }
            let d = cs[p];
            let hex = ('0' <= d && d <= '9') || ('A' <= d && d <= 'F') || ('a' <= d && d <= 'f');
            if !hex {
                proof {
                    assert(hex_scan_end(cs@, p as int) == p as int);
                }
                break;
            }
            proof {
                assert(is_hex_digit_char(cs@[p as int]));
                assert(hex_scan_end(cs@, p as int) == hex_scan_end(cs@, p as int + 1));
                assert(cs@.subrange(pos as int + 1, p as int + 1).drop_last() =~= cs@.subrange(
                    pos as int + 1,
                    p as int,
                ));
                assert(cs@.subrange(pos as int + 1, p as int + 1).last() == cs@[p as int]);
            }
            let dv: u32 = if d <= '9' {
                (d as u32) - 0x30
            } else if d <= 'F' {
                (d as u32) - 0x41 + 10
            } else {
                (d as u32) - 0x61 + 10
            };
            if value >= 0x1000_0000 {
                // The literal does not fit an unsigned 32-bit integer, so
                // the whole digit run cannot either.
                proof {
                    let h = hex_scan_end(cs@, pos as int + 1);
                    let whole = cs@.subrange(pos as int + 1, h);
                    lemma_hex_scan_bounds(cs@, p as int + 1);
                    assert(p as int + 1 <= h <= cs@.len());
                    assert(whole.take(p as int + 1 - (pos as int + 1)) =~= cs@.subrange(
                        pos as int + 1,
                        p as int + 1,
                    ));
                    assert(hex_char_seq_val(cs@.subrange(pos as int + 1, p as int + 1))
                        == value * 16 + dv);
                    lemma_hex_seq_prefix_le(whole, p as int + 1 - (pos as int + 1));
                    assert(hex_char_seq_val(whole) > u32::MAX);
                    assert(!value_scan(cs@, pos as int).0);
                }
                return Err(unrecognised(pos, p));
            }
            value = value * 16 + dv;
            any = true;
            p += 1;
        }
        if !any {
            return Err(unrecognised(pos, p));
        }
        return Ok(
            (ParsedExpr { expr: Expr::UInt(value), span: Span { start: pos, end: p } }, p),
        );
    }
    if '0' <= c && c <= '9' {
        let mut p = pos;
        let mut value: u32 = 0;
        while p < cs.len() && '0' <= cs[p] && cs[p] <= '9'
            invariant
                pos < cs@.len(),
                is_dec_digit_char(cs@[pos as int]),
                pos <= p <= cs@.len(),
                dec_scan_end(cs@, pos as int) == dec_scan_end(cs@, p as int),
                value == dec_seq_val(cs@.subrange(pos as int, p as int)),
            decreases cs@.len() - p,
        {
            proof {
                assert(is_dec_digit_char(cs@[p as int]));
                assert(dec_scan_end(cs@, p as int) == dec_scan_end(cs@, p as int + 1));
                assert(cs@.subrange(pos as int, p as int + 1).drop_last() =~= cs@.subrange(
                    pos as int,
                    p as int,
                ));
                assert(cs@.subrange(pos as int, p as int + 1).last() == cs@[p as int]);
            }
            let dv: u32 = (cs[p] as u32) - 0x30;
            if value > 429496729 || (value == 429496729 && dv > 5) {
                // The literal does not fit an unsigned 32-bit integer, so
                // the whole digit run cannot either.
                proof {
                    let d_end = dec_scan_end(cs@, pos as int);
                    let whole = cs@.subrange(pos as int, d_end);
                    lemma_dec_scan_bounds(cs@, p as int + 1);
                    assert(p as int + 1 <= d_end <= cs@.len());
                    assert(whole.take(p as int + 1 - pos as int) =~= cs@.subrange(
                        pos as int,
                        p as int + 1,
                    ));
                    assert(dec_seq_val(cs@.subrange(pos as int, p as int + 1)) == value * 10 + dv);
                    lemma_dec_seq_prefix_le(whole, p as int + 1 - pos as int);
                    assert(dec_seq_val(whole) > u32::MAX);
                    assert(!value_scan(cs@, pos as int).0);
                }
                return Err(unrecognised(pos, p));
            }
            value = value * 10 + dv;
            p += 1;
        }
        proof {
            assert(dec_scan_end(cs@, p as int) == p as int);
        }
        return Ok(
            (ParsedExpr { expr: Expr::UInt(value), span: Span { start: pos, end: p } }, p),
        );
    }
    Err(unrecognised(pos, pos + 1))
}

/// Whether every character is an ASCII decimal digit.
pub open spec fn all_dec_digits_spec(s: Seq<char>) -> bool {
    forall|i: int| 0 <= i < s.len() ==> is_dec_digit_char(#[trigger] s[i])
}

/// Whether a text is a dollar sign followed by hexadecimal digits.
pub open spec fn hex_shaped_spec(s: Seq<char>) -> bool {
    s.len() > 0 && s[0] == '$' && (forall|i: int|
        1 <= i < s.len() ==> is_hex_digit_char(#[trigger] s[i]))
}

/// What kind an argument position demands.
#[derive(Clone, Copy, Debug, PartialEq, Eq, Structural)]
pub enum ArgCheck {
    Str,
    Uint,
    Byte,
    Value,
}

impl ArgCheck {
    /// The value shapes that pass this check.
    pub open spec fn admits(self, e: Expr) -> bool {
        match self {
            ArgCheck::Str => e is String,
            ArgCheck::Uint => e is UInt,
            ArgCheck::Byte => e matches Expr::UInt(u) && u <= 255,
            ArgCheck::Value => arg_is_value(e),
        }
    }
}

/// The error recorded for an integer argument of the wrong kind: the
/// expected and found kinds on the argument's span, with help when the
/// text looks like a quoted number.
pub open spec fn uint_error_fits(node: ParsedExpr, err: Error) -> bool {
    &&& err.reason matches ErrorReason::ArgType { span, expected, found } && span == node.span
        && expected@ == seq![ExprKind::UInt] && found == node.expr.kind()
    &&& match node.expr {
        Expr::String(s) => if all_dec_digits_spec(s@) {
            err.notes@.len() == 1 && (err.notes@[0] matches ErrorNote::Help(m) && m@
                == "If the argument was intended to be an unsigned integer, try removing the enclosing \"\""@)
        } else if hex_shaped_spec(s@) {
            err.notes@.len() == 1 && (err.notes@[0] matches ErrorNote::Help(m) && m@
                == "If the argument was intended to be a hex unsigned integer, try removing the enclosing \"\""@)
        } else {
            err.notes@.len() == 0
        },
        _ => err.notes@.len() == 0,
    }
}

/// The error recorded when a value fails the check of its position: a
/// wrong-kind report, or an out-of-limits report for a byte above 255.
pub(crate) open spec fn arg_error_fits(check: ArgCheck, node: ParsedExpr, err: Error) -> bool {
    match check {
        ArgCheck::Str => {
            &&& err.reason matches ErrorReason::ArgType { span, expected, found } && span
                == node.span && expected@ == seq![ExprKind::String] && found == node.expr.kind()
            &&& err.notes@.len() == 1
            &&& (err.notes@[0] matches ErrorNote::Note(m) && m@
                == "If the argument was intended to be a string it should be delimited by \"\""@)
        },
        ArgCheck::Uint => uint_error_fits(node, err),
        ArgCheck::Byte => if node.expr is UInt {
            &&& err.reason matches ErrorReason::ArgValue { span, value, limits } && span
                == node.span && (node.expr matches Expr::UInt(u) && value == u) && limits == (
            0u32,
            255u32,
            )
            &&& err.notes@.len() == 0
        } else {
            uint_error_fits(node, err)
        },
        ArgCheck::Value => {
            &&& err.reason matches ErrorReason::ArgValue { span, value, limits } && span
                == node.span && (node.expr matches Expr::UInt(u) && value == u) && limits == (
            0u32,
            255u32,
            )
            &&& err.notes@.len() == 0
        },
    }
}

/// The value the integer literal at `vpos` denotes.
pub open spec fn value_of_at(src: Seq<char>, vpos: int) -> nat {
    if 0 <= vpos < src.len() && src[vpos] == '$' {
        hex_char_seq_val(src.subrange(vpos + 1, hex_scan_end(src, vpos + 1)))
    } else if 0 <= vpos < src.len() {
        dec_seq_val(src.subrange(vpos, dec_scan_end(src, vpos)))
    } else {
        0
    }
}

/// Whether the value starting at `vpos` passes the check of its position.
pub open spec fn check_ok_at(check: ArgCheck, src: Seq<char>, vpos: int) -> bool {
    match check {
        ArgCheck::Str => 0 <= vpos < src.len() && src[vpos] == '"',
        ArgCheck::Uint => 0 <= vpos < src.len() && src[vpos] != '"',
        ArgCheck::Byte => 0 <= vpos < src.len() && src[vpos] != '"' && value_of_at(src, vpos)
            <= 255,
        ArgCheck::Value => 0 <= vpos < src.len() && (src[vpos] == '"' || value_of_at(src, vpos)
            <= 255),
    }
}

/// Where one checked argument read after a command word or a comma ends:
/// whether it reads at all, where it ends, and whether it passes its
/// check.
pub open spec fn arg_scan(check: ArgCheck, src: Seq<char>, pos: int) -> (bool, int, bool) {
    let v = inline_end(src, pos);
    let sc = value_scan(src, v);
    (sc.0, sc.1, sc.0 && check_ok_at(check, src, v))
}

/// Read a comma, then one checked argument.
pub open spec fn comma_arg_scan(check: ArgCheck, src: Seq<char>, endp: int) -> (
    bool,
    int,
    bool,
) {
    let c = inline_end(src, endp);
    if c < src.len() && src[c] == ',' {
        arg_scan(check, src, c + 1)
    } else {
        (false, c, false)
    }
}

/// Continue a chain of arguments with a comma and one more argument.
pub open spec fn and_comma_arg(check: ArgCheck, src: Seq<char>, prev: (bool, int, bool)) -> (
    bool,
    int,
    bool,
) {
    if !prev.0 {
        prev
    } else {
        let nxt = comma_arg_scan(check, src, prev.1);
        (nxt.0, nxt.1, prev.2 && nxt.2)
    }
}

/// The two byte arguments of an option command.
pub open spec fn two_bytes_scan(src: Seq<char>, pos: int) -> (bool, int, bool) {
    and_comma_arg(ArgCheck::Byte, src, arg_scan(ArgCheck::Byte, src, pos))
}

/// The five arguments of a test command.
pub open spec fn test_args_scan(src: Seq<char>, pos: int) -> (bool, int, bool) {
    and_comma_arg(
        ArgCheck::Str,
        src,
        and_comma_arg(
            ArgCheck::Uint,
            src,
            and_comma_arg(
                ArgCheck::Uint,
                src,
                and_comma_arg(ArgCheck::Uint, src, arg_scan(ArgCheck::Byte, src, pos)),
            ),
        ),
    )
}

/// Whether every character of a string is an ASCII decimal digit.
fn all_dec_digits(s: &String) -> (r: bool)
    ensures
        r == (forall|i: int| 0 <= i < s@.len() ==> is_dec_digit_char(#[trigger] s@[i])),
{
    let text = s.as_str();
    let n = text.unicode_len();
    let mut i: usize = 0;
    while i < n
        invariant
            n == text@.len(),
            text@ == s@,
            0 <= i <= n,
            forall|j: int| 0 <= j < i ==> is_dec_digit_char(#[trigger] s@[j]),
        decreases n - i,
    {
        let c = text.get_char(i);
        if !('0' <= c && c <= '9') {
            return false;
        }
        i += 1;
    }
    true
}

/// Whether a string is a dollar sign followed by hexadecimal digits.
fn is_hex_shaped(s: &String) -> (r: bool)
    ensures
        r == hex_shaped_spec(s@),
{
    let text = s.as_str();
    let n = text.unicode_len();
    if n == 0 {
        return false;
    }
    if text.get_char(0) != '$' {
        return false;
    }
    let mut i: usize = 1;
    while i < n
        invariant
            n == text@.len(),
            text@ == s@,
            s@.len() > 0 && s@[0] == '$',
            1 <= i <= n,
            forall|j: int| 1 <= j < i ==> is_hex_digit_char(#[trigger] s@[j]),
        decreases n - i,
    {
        let c = text.get_char(i);
        if !(('0' <= c && c <= '9') || ('A' <= c && c <= 'F') || ('a' <= c && c <= 'f')) {
            proof {
                assert(!is_hex_digit_char(s@[i as int]));
            }
            return false;
        }
        i += 1;
    }
    true
}

/// Check a parsed value against the kind its position demands; a failure
/// is recorded and parsing goes on.
fn validate_arg(arg: &ParsedExpr, check: ArgCheck, errors: &mut Vec<Error>)
    requires
        arg.expr is String || arg.expr is UInt,
    ensures
        check.admits(arg.expr) ==> final(errors)@ == old(errors)@,
        !check.admits(arg.expr) ==> final(errors)@.len() == old(errors)@.len() + 1
            && final(errors)@.take(old(errors)@.len() as int) == old(errors)@
            && arg_error_fits(check, *arg, final(errors)@.last()),
{
    match check {
        ArgCheck::Str => {
            if !matches!(arg.expression(), Expr::String(_)) {
                let mut kinds: Vec<ExprKind> = Vec::new();
                kinds.push(ExprKind::String);
                let error = Error::argument_type(arg.span(), kinds, arg.expression_kind())
                    .with_note(
                    ErrorNote::Note(
                        "If the argument was intended to be a string it should be delimited by \"\"",
                    ),
                );
                errors.push(error);
                proof {
                    assert(errors@.take(old(errors)@.len() as int) =~= old(errors)@);
                }
            }
        },
        ArgCheck::Uint => {
            validate_uint_arg(arg, errors);
        },
        ArgCheck::Byte => {
            validate_uint_arg(arg, errors);
            if let Expr::UInt(value) = arg.expression() {
                if *value > 255 {
                    errors.push(Error::argument_value_size(arg.span(), *value, (0, 255)));
                    proof {
                        assert(errors@.take(old(errors)@.len() as int) =~= old(errors)@);
                    }
                }
            }
        },
        ArgCheck::Value => {
            if let Expr::UInt(value) = arg.expression() {
                if *value > 255 {
                    errors.push(Error::argument_value_size(arg.span(), *value, (0, 255)));
                    proof {
                        assert(errors@.take(old(errors)@.len() as int) =~= old(errors)@);
                    }
                }
            }
        },
    }
}

/// Record a wrong-kind error for an argument that should have been an
/// unsigned integer, with help when the text looks like a quoted number.
fn validate_uint_arg(arg: &ParsedExpr, errors: &mut Vec<Error>)
    ensures
        arg.expr is UInt ==> final(errors)@ == old(errors)@,
        !(arg.expr is UInt) ==> final(errors)@.len() == old(errors)@.len() + 1
            && final(errors)@.take(old(errors)@.len() as int) == old(errors)@
            && uint_error_fits(*arg, final(errors)@.last()),
{
    if !matches!(arg.expression(), Expr::UInt(_)) {
        let mut kinds: Vec<ExprKind> = Vec::new();
        kinds.push(ExprKind::UInt);
        let mut error = Error::argument_type(arg.span(), kinds, arg.expression_kind());
        if let Expr::String(string) = arg.expression() {
            if all_dec_digits(string) {
                error = error.with_note(
                    ErrorNote::Help(
                        "If the argument was intended to be an unsigned integer, try removing the enclosing \"\"",
                    ),
                );
            } else if is_hex_shaped(string) {
                error = error.with_note(
                    ErrorNote::Help(
                        "If the argument was intended to be a hex unsigned integer, try removing the enclosing \"\"",
                    ),
                );
            }
        }
        errors.push(error);
        proof {
            assert(errors@.take(old(errors)@.len() as int) =~= old(errors)@);
        }
    }
}

/// Parse one checked argument after a command word or a comma.
fn checked_arg(cs: &Vec<char>, pos: usize, check: ArgCheck, errors: &mut Vec<Error>) -> (r: Result<
    (ParsedExpr, usize),
    Error,
>)
    requires
        pos <= cs@.len(),
    ensures
        final(errors)@.len() >= old(errors)@.len(),
        r is Ok <==> arg_scan(check, cs@, pos as int).0,
        r matches Ok(t) ==> {
            &&& pos < t.1 <= cs@.len()
            &&& t.0.span.start == inline_end(cs@, pos as int)
            &&& t.1 == t.0.span.end
            &&& t.1 == arg_scan(check, cs@, pos as int).1
            &&& spans_within(t.0, cs@.len())
            &&& (t.0.expr matches Expr::String(_) || t.0.expr matches Expr::UInt(_))
            &&& (cs@[t.0.span.start as int] == '"' ==> t.0.expr is String)
            &&& (cs@[t.0.span.start as int] != '"' ==> t.0.expr is UInt)
            &&& matches_source(t.0, cs@)
            &&& check.admits(t.0.expr) == arg_scan(check, cs@, pos as int).2
            &&& (check.admits(t.0.expr) ==> final(errors)@ == old(errors)@)
            &&& (!check.admits(t.0.expr) ==> final(errors)@.len() == old(errors)@.len() + 1
                && final(errors)@.take(old(errors)@.len() as int) == old(errors)@
                && arg_error_fits(check, t.0, final(errors)@.last()))
        },
        r matches Err(e) ==> fatal_shape(e, cs@.len()) && final(errors)@ == old(errors)@,
{
    let p = skip_inline_ws(cs, pos);
    let (arg, p2) = match parse_value(cs, p) {
        Ok(t) => t,
        Err(e) => {
            return Err(e);
        },
    };
    proof {
        let v = p as int;
        if cs@[v] != '"' && cs@[v] != '$' {
            assert(is_dec_digit_char(cs@[v]));
        }
        assert(check.admits(arg.expr) == check_ok_at(check, cs@, v));
    }
    validate_arg(&arg, check, errors);
    Ok((arg, p2))
}

/// Consume a comma, with inline whitespace allowed before it.
fn expect_comma(cs: &Vec<char>, pos: usize) -> (r: Result<usize, Error>)
    requires
        pos <= cs@.len(),
    ensures
        r is Ok <==> (inline_end(cs@, pos as int) < cs@.len() && cs@[inline_end(cs@, pos as int)]
            == ','),
        r matches Ok(p) ==> pos <= p <= cs@.len() && p == inline_end(cs@, pos as int) + 1,
        r matches Err(e) ==> fatal_shape(e, cs@.len()),
{
    let p = skip_inline_ws(cs, pos);
    if p < cs.len() && cs[p] == ',' {
        Ok(p + 1)
    } else {
        Err(unrecognised(p, if p < cs.len() {
            p + 1
        } else {
            p
        }))
    }
}

/// A list whose prefix once held an earlier list still holds its prefix.
proof fn lemma_take_prefix_chain(base: Seq<Error>, mid: Seq<Error>, last_list: Seq<Error>)
    requires
        base.len() <= mid.len() <= last_list.len(),
        mid == base || mid.take(base.len() as int) == base,
        last_list == mid || last_list.take(mid.len() as int) == mid,
    ensures
        last_list.take(base.len() as int) == base,
        forall|i: int| 0 <= i < mid.len() ==> last_list[i] == mid[i],
{
    if mid == base {
        assert(mid.take(base.len() as int) =~= base);
    }
    if last_list == mid {
        assert(last_list.take(mid.len() as int) =~= mid);
    }
    assert forall|i: int| 0 <= i < mid.len() implies last_list[i] == mid[i] by {
        assert(last_list.take(mid.len() as int)[i] == last_list[i]);
    }
    assert(last_list.take(base.len() as int) =~= base);
}

/// One value node as the source fixes it: it reads at its start, ends
/// where the value scan ends, and its kind follows the first character.
pub open spec fn value_node_at(src: Seq<char>, node: ParsedExpr) -> bool {
    &&& value_scan(src, node.span.start as int).0
    &&& node.span.end == value_scan(src, node.span.start as int).1
    &&& (src[node.span.start as int] == '"' ==> node.expr is String)
    &&& (src[node.span.start as int] != '"' ==> node.expr is UInt)
}

/// A comma stands between the end of one argument and the start of the
/// next, inline whitespace around it.
pub open spec fn follows_comma(src: Seq<char>, prev_end: int, next_start: int) -> bool {
    let c = inline_end(src, prev_end);
    c < src.len() && src[c] == ',' && next_start == inline_end(src, c + 1)
}

/// The argument list of a variadic command as the source fixes it: empty
/// exactly when no value starts after the keyword, the first argument at
/// the first value, each next argument after a comma, and none after the
/// last.
pub open spec fn variadic_nodes_at(src: Seq<char>, pos0: int, args: Seq<ParsedExpr>) -> bool {
    let p = inline_end(src, pos0);
    &&& (args.len() == 0 <==> (p >= src.len() || !value_start(src, p)))
    &&& (args.len() > 0 ==> args[0].span.start == p)
    &&& (forall|i: int| 0 <= i < args.len() ==> value_node_at(src, #[trigger] args[i]))
    &&& (forall|i: int|
        0 < i < args.len() ==> follows_comma(
            src,
            args[i - 1].span.end as int,
            (#[trigger] args[i]).span.start as int,
        ))
    &&& (args.len() > 0 ==> !(inline_end(src, args.last().span.end as int) < src.len() && src[
        inline_end(src, args.last().span.end as int)
    ] == ','))
}

/// How many arguments of a list fail the value check.
pub open spec fn value_fail_count(args: Seq<ParsedExpr>) -> nat
    decreases args.len(),
{
    if args.len() == 0 {
        0
    } else {
        value_fail_count(args.drop_last()) + (if arg_is_value(args.last().expr) {
            0nat
        } else {
            1nat
        })
    }
}

/// Read values separated by commas from the first value on: whether every
/// value reads, where the list ends, and whether every value passes the
/// byte check.
pub open spec fn variadic_chain(src: Seq<char>, p: int) -> (bool, int, bool)
    decreases src.len() - p,
{
    let v = value_scan(src, p);
    if !v.0 {
        (false, p, false)
    } else {
        let c = inline_end(src, v.1);
        if c < src.len() && src[c] == ',' {
            let n = inline_end(src, c + 1);
            if n <= p || n > src.len() {
                (false, n, false)
            } else {
                let rest = variadic_chain(src, n);
                (rest.0, rest.1, check_ok_at(ArgCheck::Value, src, p) && rest.2)
            }
        } else {
            (true, v.1, check_ok_at(ArgCheck::Value, src, p))
        }
    }
}

/// The whole argument part of a variadic command: nothing to read counts
/// as an empty list.
pub open spec fn variadic_scan(src: Seq<char>, pos: int) -> (bool, int, bool) {
    let p = inline_end(src, pos);
    if p >= src.len() {
        (true, p, true)
    } else if !value_start(src, p) {
        (true, pos, true)
    } else {
        variadic_chain(src, p)
    }
}

/// The shape of an error a variadic value may record: an out-of-limits
/// report for a byte above 255, on a span within the source.
pub open spec fn value_err_shape(e: Error, limit: nat) -> bool {
    &&& e.reason matches ErrorReason::ArgValue { span, value, limits } && span.within(limit)
        && value > 255 && limits == (0u32, 255u32)
    &&& e.notes@.len() == 0
}

/// A list has no failing values exactly when every value passes.
proof fn lemma_fail_count_zero(args: Seq<ParsedExpr>)
    ensures
        print_args_wf(args) <==> value_fail_count(args) == 0,
    decreases args.len(),
{
    if args.len() > 0 {
        lemma_fail_count_zero(args.drop_last());
        if value_fail_count(args) == 0 {
            assert forall|i: int| 0 <= i < args.len() implies arg_is_value(
                (#[trigger] args[i]).expr,
            ) by {
                if i < args.len() - 1 {
                    assert(args.drop_last()[i] == args[i]);
                }
            }
        }
        if print_args_wf(args) {
            assert forall|i: int| 0 <= i < args.drop_last().len() implies arg_is_value(
                (#[trigger] args.drop_last()[i]).expr,
            ) by {
                assert(args.drop_last()[i] == args[i]);
            }
        }
    }
}

/// Unfold one step of the value chain across a comma.
proof fn lemma_variadic_chain_step(src: Seq<char>, p: int, n: int)
    requires
        value_scan(src, p).0,
        inline_end(src, value_scan(src, p).1) < src.len(),
        src[inline_end(src, value_scan(src, p).1)] == ',',
        n == inline_end(src, inline_end(src, value_scan(src, p).1) + 1),
        p < n <= src.len(),
    ensures
        variadic_chain(src, p).0 == variadic_chain(src, n).0,
        variadic_chain(src, p).0 ==> variadic_chain(src, p).1 == variadic_chain(src, n).1,
        variadic_chain(src, p).2 == (check_ok_at(ArgCheck::Value, src, p) && variadic_chain(
            src,
            n,
        ).2),
{
}

/// Unfold the last step of the value chain, where no comma follows.
proof fn lemma_variadic_chain_last(src: Seq<char>, p: int)
    requires
        value_scan(src, p).0,
        !(inline_end(src, value_scan(src, p).1) < src.len() && src[inline_end(
            src,
            value_scan(src, p).1,
        )] == ','),
    ensures
        variadic_chain(src, p).0,
        variadic_chain(src, p).1 == value_scan(src, p).1,
        variadic_chain(src, p).2 == check_ok_at(ArgCheck::Value, src, p),
{
}

/// Parse the comma-separated values of a variadic command; the list may be
/// empty. Each unsigned integer element must fit one byte.
#[verifier::rlimit(100)]
#[verifier::spinoff_prover]
fn parse_variadic_args(cs: &Vec<char>, pos: usize, errors: &mut Vec<Error>) -> (r: Result<
    (Vec<ParsedExpr>, usize),
    Error,
>)
    requires
        pos <= cs@.len(),
    ensures
        final(errors)@.len() >= old(errors)@.len(),
        r is Ok <==> variadic_scan(cs@, pos as int).0,
        r matches Ok(t) ==> ({
            let n0 = old(errors)@.len() as int;
            &&& pos <= t.1 <= cs@.len()
            &&& t.1 == variadic_scan(cs@, pos as int).1
            &&& variadic_nodes_at(cs@, pos as int, t.0@)
            &&& (forall|i: int|
                0 <= i < t.0@.len() ==> spans_within(#[trigger] t.0@[i], cs@.len())
                    && matches_source(t.0@[i], cs@) && ((t.0@[i]).expr matches Expr::String(_)
                    || (t.0@[i]).expr matches Expr::UInt(_)))
            &&& final(errors)@.len() == n0 + value_fail_count(t.0@)
            &&& final(errors)@.take(n0) == old(errors)@
            &&& (forall|k: int|
                n0 <= k < final(errors)@.len() ==> value_err_shape(
                    #[trigger] final(errors)@[k],
                    cs@.len(),
                ))
            &&& variadic_scan(cs@, pos as int).2 == (value_fail_count(t.0@) == 0)
            &&& (value_fail_count(t.0@) == 0 ==> final(errors)@ == old(errors)@)
            &&& (final(errors)@.len() == old(errors)@.len() ==> print_args_wf(t.0@))
        }),
        r matches Err(e) ==> fatal_shape(e, cs@.len()),
{
    let mut args: Vec<ParsedExpr> = Vec::new();
    let mut p = skip_inline_ws(cs, pos);
    let ghost fp = p as int;
    if p >= cs.len() {
        return Ok((args, p));
    }
    let c = cs[p];
    if !(c == '"' || c == '$' || ('0' <= c && c <= '9')) {
        return Ok((args, pos));
    }
    loop
        invariant_except_break
            inline_end(cs@, p as int) == p,
            args@.len() == 0 ==> p == fp,
            args@.len() > 0 ==> follows_comma(cs@, args@.last().span.end as int, p as int),
            variadic_chain(cs@, fp).0 == variadic_chain(cs@, p as int).0,
            variadic_chain(cs@, fp).0 ==> variadic_chain(cs@, fp).1 == variadic_chain(
                cs@,
                p as int,
            ).1,
            variadic_chain(cs@, fp).0 ==> variadic_chain(cs@, fp).2 == ((value_fail_count(args@)
                == 0) && variadic_chain(cs@, p as int).2),
        invariant
            pos <= cs@.len(),
            fp == inline_end(cs@, pos as int),
            pos <= fp,
            0 <= fp < cs@.len(),
            value_start(cs@, fp),
            fp <= p <= cs@.len(),
            args@.len() > 0 ==> args@[0].span.start == fp,
            forall|i: int| 0 <= i < args@.len() ==> value_node_at(cs@, #[trigger] args@[i]),
            forall|i: int|
                0 < i < args@.len() ==> follows_comma(
                    cs@,
                    args@[i - 1].span.end as int,
                    (#[trigger] args@[i]).span.start as int,
                ),
            errors@.len() == old(errors)@.len() + value_fail_count(args@),
            errors@ == old(errors)@ || errors@.take(old(errors)@.len() as int) == old(errors)@,
            forall|k: int|
                old(errors)@.len() <= k < errors@.len() ==> value_err_shape(
                    #[trigger] errors@[k],
                    cs@.len(),
                ),
            forall|j: int|
                0 <= j < args@.len() ==> spans_within(#[trigger] args@[j], cs@.len())
                    && matches_source(args@[j], cs@) && ((args@[j]).expr
                    matches Expr::String(_) || (args@[j]).expr matches Expr::UInt(_)),
        ensures
            pos <= p <= cs@.len(),
            args@.len() > 0,
            args@[0].span.start == fp,
            variadic_chain(cs@, fp).0,
            variadic_chain(cs@, fp).1 == p,
            variadic_chain(cs@, fp).2 == (value_fail_count(args@) == 0),
            !(inline_end(cs@, args@.last().span.end as int) < cs@.len() && cs@[inline_end(
                cs@,
                args@.last().span.end as int,
            )] == ','),
            p == args@.last().span.end,
            forall|i: int| 0 <= i < args@.len() ==> value_node_at(cs@, #[trigger] args@[i]),
            forall|i: int|
                0 < i < args@.len() ==> follows_comma(
                    cs@,
                    args@[i - 1].span.end as int,
                    (#[trigger] args@[i]).span.start as int,
                ),
            errors@.len() == old(errors)@.len() + value_fail_count(args@),
            errors@ == old(errors)@ || errors@.take(old(errors)@.len() as int) == old(errors)@,
            forall|k: int|
                old(errors)@.len() <= k < errors@.len() ==> value_err_shape(
                    #[trigger] errors@[k],
                    cs@.len(),
                ),
            forall|j: int|
                0 <= j < args@.len() ==> spans_within(#[trigger] args@[j], cs@.len())
                    && matches_source(args@[j], cs@) && ((args@[j]).expr
                    matches Expr::String(_) || (args@[j]).expr matches Expr::UInt(_)),
        decreases cs@.len() - p,
    {
        let ghost args_before = args@;
        let ghost errors_before = errors@;
        let ghost p_top = p as int;
        let (arg, p2) = match checked_arg(cs, p, ArgCheck::Value, errors) {
            Ok(t) => t,
            Err(e) => {
                return Err(e);
            },
        };
        proof {
            assert(inline_end(cs@, p_top) == p_top);
            assert(arg.span.start == p_top);
            lemma_take_prefix_chain(old(errors)@, errors_before, errors@);
            assert(args_before.push(arg).drop_last() =~= args_before);
            assert(value_fail_count(args_before.push(arg)) == value_fail_count(args_before) + (
            if arg_is_value(arg.expr) {
                0nat
            } else {
                1nat
            }));
            if !arg_is_value(arg.expr) {
                assert(value_err_shape(errors@.last(), cs@.len()));
            }
        }
        args.push(arg);
        p = p2;
        let after = skip_inline_ws(cs, p);
        if after < cs.len() && cs[after] == ',' {
            let next = skip_inline_ws(cs, after + 1);
            proof {
                lemma_variadic_chain_step(cs@, p_top, next as int);
            }
            p = next;
        } else {
            proof {
                lemma_variadic_chain_last(cs@, p_top);
            }
            break;
        }
    }
    proof {
        assert(args@.take(args@.len() as int) =~= args@);
        if errors@.len() == old(errors)@.len() {
            lemma_fail_count_zero(args@);
            assert(errors@.take(old(errors)@.len() as int) =~= errors@);
            assert(errors@ == old(errors)@);
        }
        if errors@ == old(errors)@ {
            assert(errors@.take(old(errors)@.len() as int) =~= old(errors)@);
        }
    }
    Ok((args, p))
}

/// Parse the two comma-separated byte arguments of an option command.
fn parse_two_bytes(cs: &Vec<char>, pos: usize, errors: &mut Vec<Error>) -> (r: Result<
    (ParsedExpr, ParsedExpr, usize),
    Error,
>)
    requires
        pos <= cs@.len(),
    ensures
        final(errors)@.len() >= old(errors)@.len(),
        r is Ok <==> two_bytes_scan(cs@, pos as int).0,
        r matches Ok(t) ==> ({
            let n0 = old(errors)@.len() as int;
            let ok1 = ArgCheck::Byte.admits(t.0.expr);
            let ok2 = ArgCheck::Byte.admits(t.1.expr);
            &&& pos < t.2 <= cs@.len()
            &&& t.0.span.start == inline_end(cs@, pos as int)
            &&& inline_end(cs@, t.0.span.end as int) < cs@.len()
            &&& cs@[inline_end(cs@, t.0.span.end as int)] == ','
            &&& t.1.span.start == inline_end(cs@, inline_end(cs@, t.0.span.end as int) + 1)
            &&& t.2 == t.1.span.end
            &&& t.2 == two_bytes_scan(cs@, pos as int).1
            &&& value_node_at(cs@, t.0) && value_node_at(cs@, t.1)
            &&& spans_within(t.0, cs@.len()) && spans_within(t.1, cs@.len())
            &&& matches_source(t.0, cs@) && matches_source(t.1, cs@)
            &&& (ok1 && ok2) == two_bytes_scan(cs@, pos as int).2
            &&& (ok1 && ok2 ==> final(errors)@ == old(errors)@)
            &&& final(errors)@.len() == n0 + (if ok1 {
                0int
            } else {
                1int
            }) + (if ok2 {
                0int
            } else {
                1int
            })
            &&& final(errors)@.take(n0) == old(errors)@
            &&& (!ok1 ==> arg_error_fits(ArgCheck::Byte, t.0, final(errors)@[n0]))
            &&& (!ok2 ==> arg_error_fits(ArgCheck::Byte, t.1, final(errors)@.last()))
        }),
        r matches Err(e) ==> fatal_shape(e, cs@.len()),
{
    let ghost e0 = errors@;
    let (a1, p1) = match checked_arg(cs, pos, ArgCheck::Byte, errors) {
        Ok(t) => t,
        Err(e) => {
            return Err(e);
        },
    };
    let ghost e1 = errors@;
    let p2 = match expect_comma(cs, p1) {
        Ok(p2) => p2,
        Err(e) => {
            return Err(e);
        },
    };
    let (a2, p3) = match checked_arg(cs, p2, ArgCheck::Byte, errors) {
        Ok(t) => t,
        Err(e) => {
            return Err(e);
        },
    };
    proof {
        lemma_take_prefix_chain(e0, e1, errors@);
    }
    Ok((a1, a2, p3))
}

/// Parse the five comma-separated arguments of a test command: a byte
/// channel, the range bounds and the retry count, and the failure
/// message.
fn parse_test_args(cs: &Vec<char>, pos: usize, errors: &mut Vec<Error>) -> (r: Result<
    (ParsedExpr, ParsedExpr, ParsedExpr, ParsedExpr, ParsedExpr, usize),
    Error,
>)
    requires
        pos <= cs@.len(),
    ensures
        final(errors)@.len() >= old(errors)@.len(),
        r is Ok <==> test_args_scan(cs@, pos as int).0,
        r matches Ok(t) ==> ({
            let n0 = old(errors)@.len() as int;
            let ok1 = ArgCheck::Byte.admits(t.0.expr);
            let ok2 = ArgCheck::Uint.admits(t.1.expr);
            let ok3 = ArgCheck::Uint.admits(t.2.expr);
            let ok4 = ArgCheck::Uint.admits(t.3.expr);
            let ok5 = ArgCheck::Str.admits(t.4.expr);
            let c1 = n0 + (if ok1 { 0int } else { 1int });
            let c2 = c1 + (if ok2 { 0int } else { 1int });
            let c3 = c2 + (if ok3 { 0int } else { 1int });
            let c4 = c3 + (if ok4 { 0int } else { 1int });
            let c5 = c4 + (if ok5 { 0int } else { 1int });
            &&& pos < t.5 <= cs@.len()
            &&& t.0.span.start == inline_end(cs@, pos as int)
            &&& inline_end(cs@, t.0.span.end as int) < cs@.len()
            &&& cs@[inline_end(cs@, t.0.span.end as int)] == ','
            &&& t.1.span.start == inline_end(cs@, inline_end(cs@, t.0.span.end as int) + 1)
            &&& inline_end(cs@, t.1.span.end as int) < cs@.len()
            &&& cs@[inline_end(cs@, t.1.span.end as int)] == ','
            &&& t.2.span.start == inline_end(cs@, inline_end(cs@, t.1.span.end as int) + 1)
            &&& inline_end(cs@, t.2.span.end as int) < cs@.len()
            &&& cs@[inline_end(cs@, t.2.span.end as int)] == ','
            &&& t.3.span.start == inline_end(cs@, inline_end(cs@, t.2.span.end as int) + 1)
            &&& inline_end(cs@, t.3.span.end as int) < cs@.len()
            &&& cs@[inline_end(cs@, t.3.span.end as int)] == ','
            &&& t.4.span.start == inline_end(cs@, inline_end(cs@, t.3.span.end as int) + 1)
            &&& t.5 == t.4.span.end
            &&& t.5 == test_args_scan(cs@, pos as int).1
            &&& value_node_at(cs@, t.0) && value_node_at(cs@, t.1) && value_node_at(cs@, t.2)
                && value_node_at(cs@, t.3) && value_node_at(cs@, t.4)
            &&& spans_within(t.0, cs@.len()) && spans_within(t.1, cs@.len()) && spans_within(
                t.2,
                cs@.len(),
            ) && spans_within(t.3, cs@.len()) && spans_within(t.4, cs@.len())
            &&& matches_source(t.0, cs@) && matches_source(t.1, cs@) && matches_source(t.2, cs@)
                && matches_source(t.3, cs@) && matches_source(t.4, cs@)
            &&& (ok1 && ok2 && ok3 && ok4 && ok5) == test_args_scan(cs@, pos as int).2
            &&& (ok1 && ok2 && ok3 && ok4 && ok5 ==> final(errors)@ == old(errors)@)
            &&& final(errors)@.len() == c5
            &&& final(errors)@.take(n0) == old(errors)@
            &&& (!ok1 ==> arg_error_fits(ArgCheck::Byte, t.0, final(errors)@[n0]))
            &&& (!ok2 ==> arg_error_fits(ArgCheck::Uint, t.1, final(errors)@[c1]))
            &&& (!ok3 ==> arg_error_fits(ArgCheck::Uint, t.2, final(errors)@[c2]))
            &&& (!ok4 ==> arg_error_fits(ArgCheck::Uint, t.3, final(errors)@[c3]))
            &&& (!ok5 ==> arg_error_fits(ArgCheck::Str, t.4, final(errors)@[c4]))
        }),
        r matches Err(e) ==> fatal_shape(e, cs@.len()),
{
    let ghost e0 = errors@;
    let (channel, p1) = match checked_arg(cs, pos, ArgCheck::Byte, errors) {
        Ok(t) => t,
        Err(e) => {
            return Err(e);
        },
    };
    let ghost e1 = errors@;
    let p = match expect_comma(cs, p1) {
        Ok(p) => p,
        Err(e) => {
            return Err(e);
        },
    };
    let (min, p2) = match checked_arg(cs, p, ArgCheck::Uint, errors) {
        Ok(t) => t,
        Err(e) => {
            return Err(e);
        },
    };
    let ghost e2 = errors@;
    let p = match expect_comma(cs, p2) {
        Ok(p) => p,
        Err(e) => {
            return Err(e);
        },
    };
    let (max, p3) = match checked_arg(cs, p, ArgCheck::Uint, errors) {
        Ok(t) => t,
        Err(e) => {
            return Err(e);
        },
    };
    let ghost e3 = errors@;
    let p = match expect_comma(cs, p3) {
        Ok(p) => p,
        Err(e) => {
            return Err(e);
        },
    };
    let (retries, p4) = match checked_arg(cs, p, ArgCheck::Uint, errors) {
        Ok(t) => t,
        Err(e) => {
            return Err(e);
        },
    };
    let p = match expect_comma(cs, p4) {
        Ok(p) => p,
        Err(e) => {
            return Err(e);
        },
    };
    let ghost e4 = errors@;
    let (message, p5) = match checked_arg(cs, p, ArgCheck::Str, errors) {
        Ok(t) => t,
        Err(e) => {
            return Err(e);
        },
    };
    proof {
        lemma_take_prefix_chain(e3, e4, errors@);
        lemma_take_prefix_chain(e2, e3, errors@);
        lemma_take_prefix_chain(e1, e2, errors@);
        lemma_take_prefix_chain(e0, e1, errors@);
    }
    Ok((channel, min, max, retries, message, p5))
}

/// Where one statement read at `pos` ends: whether the grammar reads it
/// at all, where it ends, and whether every argument passes its check.
pub open spec fn stmt_scan(src: Seq<char>, pos: int) -> (bool, int, bool) {
    if !(0 <= pos < src.len()) {
        (false, pos, true)
    } else if src[pos] == ';' {
        (true, line_scan_end(src, pos + 1), true)
    } else if value_start(src, pos) {
        let v = value_scan(src, pos);
        (v.0, v.1, true)
    } else if ('A' <= src[pos] && src[pos] <= 'Z') || ('a' <= src[pos] && src[pos] <= 'z') || src[
        pos
    ] == '_' {
        command_scan(src, pos)
    } else {
        (false, pos + 1, true)
    }
}

/// Where a command statement read at `pos` ends: the word decides the
/// argument grammar that follows it.
pub open spec fn command_scan(src: Seq<char>, pos: int) -> (bool, int, bool) {
    let w = word_scan_end(src, pos + 1);
    let word = src.subrange(pos, w);
    if word == "HPMODE"@ || word == "FLUSH"@ || word == "PROTOCOL"@ || word == "SETTIME"@ || word
        == "USBOPEN"@ || word == "USBCLOSE"@ || word == "USBSETTIME"@ {
        (true, w, true)
    } else if word == "COMMENT"@ || word == "OPENDIALOG"@ || word == "WAITDIALOG"@ {
        arg_scan(ArgCheck::Str, src, w)
    } else if word == "WAIT"@ {
        arg_scan(ArgCheck::Uint, src, w)
    } else if word == "SETTIMEFORMAT"@ || word == "TCUCLOSE"@ || word == "TCUOPEN"@ || word
        == "PRINTERSET"@ || word == "USBSETTIMEFORMAT"@ || word == "USBPRINTERSET"@ {
        arg_scan(ArgCheck::Byte, src, w)
    } else if word == "SETOPTION"@ || word == "USBSETOPTION"@ {
        two_bytes_scan(src, w)
    } else if word == "TCUTEST"@ || word == "PRINTERTEST"@ || word == "USBPRINTERTEST"@ {
        test_args_scan(src, w)
    } else if word == "PRINT"@ || word == "USBPRINT"@ {
        variadic_scan(src, w)
    } else {
        (false, w, true)
    }
}

/// One argument node, read after the command word or a comma at
/// `after`.
pub open spec fn arg_node_at(src: Seq<char>, after: int, node: ParsedExpr) -> bool {
    node.span.start == inline_end(src, after) && value_node_at(src, node)
}

/// The shapes and argument positions of the statement read at `pos`: the
/// node's variant follows the leading character or keyword, and each
/// argument stands where the scans place it.
pub open spec fn statement_args_at(src: Seq<char>, pos: int, node: ParsedExpr) -> bool {
    if !(0 <= pos < src.len()) {
        false
    } else if src[pos] == ';' {
        node.expr is ScriptComment
    } else if value_start(src, pos) {
        &&& (src[pos] == '"' ==> node.expr is String)
        &&& (src[pos] != '"' ==> node.expr is UInt)
    } else {
        command_args_at(src, pos, node)
    }
}

/// The shape and argument positions of a command statement: the node's
/// variant follows the keyword, and each argument stands where the scans
/// place it.
pub open spec fn command_args_at(src: Seq<char>, pos: int, node: ParsedExpr) -> bool {
    {
        let w = word_scan_end(src, pos + 1);
        let word = src.subrange(pos, w);
        if word == "HPMODE"@ {
            node.expr is HPMode
        } else if word == "FLUSH"@ {
            node.expr is Flush
        } else if word == "PROTOCOL"@ {
            node.expr is Protocol
        } else if word == "SETTIME"@ {
            node.expr is SetTime
        } else if word == "USBOPEN"@ {
            node.expr is USBOpen
        } else if word == "USBCLOSE"@ {
            node.expr is USBClose
        } else if word == "USBSETTIME"@ {
            node.expr is USBSetTime
        } else if word == "COMMENT"@ {
            node.expr matches Expr::Comment(x) && arg_node_at(src, w, *x)
        } else if word == "OPENDIALOG"@ {
            node.expr matches Expr::OpenDialog(x) && arg_node_at(src, w, *x)
        } else if word == "WAITDIALOG"@ {
            node.expr matches Expr::WaitDialog(x) && arg_node_at(src, w, *x)
        } else if word == "WAIT"@ {
            node.expr matches Expr::Wait(x) && arg_node_at(src, w, *x)
        } else if word == "SETTIMEFORMAT"@ {
            node.expr matches Expr::SetTimeFormat(x) && arg_node_at(src, w, *x)
        } else if word == "TCUCLOSE"@ {
            node.expr matches Expr::TCUClose(x) && arg_node_at(src, w, *x)
        } else if word == "TCUOPEN"@ {
            node.expr matches Expr::TCUOpen(x) && arg_node_at(src, w, *x)
        } else if word == "PRINTERSET"@ {
            node.expr matches Expr::PrinterSet(x) && arg_node_at(src, w, *x)
        } else if word == "USBSETTIMEFORMAT"@ {
            node.expr matches Expr::USBSetTimeFormat(x) && arg_node_at(src, w, *x)
        } else if word == "USBPRINTERSET"@ {
            node.expr matches Expr::USBPrinterSet(x) && arg_node_at(src, w, *x)
        } else if word == "SETOPTION"@ {
            node.expr matches Expr::SetOption { option, setting } && arg_node_at(src, w, *option)
                && follows_comma(src, option.span.end as int, setting.span.start as int)
                && value_node_at(src, *setting)
        } else if word == "USBSETOPTION"@ {
            node.expr matches Expr::USBSetOption { option, setting } && arg_node_at(
                src,
                w,
                *option,
            ) && follows_comma(src, option.span.end as int, setting.span.start as int)
                && value_node_at(src, *setting)
        } else if word == "TCUTEST"@ {
            node.expr matches Expr::TCUTest { channel, min, max, retries, message }
                && test_nodes_at(src, w, *channel, *min, *max, *retries, *message)
        } else if word == "PRINTERTEST"@ {
            node.expr matches Expr::PrinterTest { channel, min, max, retries, message }
                && test_nodes_at(src, w, *channel, *min, *max, *retries, *message)
        } else if word == "USBPRINTERTEST"@ {
            node.expr matches Expr::USBPrinterTest { channel, min, max, retries, message }
                && test_nodes_at(src, w, *channel, *min, *max, *retries, *message)
        } else if word == "PRINT"@ {
            node.expr matches Expr::Print(xs) && variadic_nodes_at(src, w, xs@)
        } else if word == "USBPRINT"@ {
            node.expr matches Expr::USBPrint(xs) && variadic_nodes_at(src, w, xs@)
        } else {
            false
        }
    }
}

/// The five argument nodes of a test command, comma after comma.
pub open spec fn test_nodes_at(
    src: Seq<char>,
    w: int,
    channel: ParsedExpr,
    min: ParsedExpr,
    max: ParsedExpr,
    retries: ParsedExpr,
    message: ParsedExpr,
) -> bool {
    &&& arg_node_at(src, w, channel)
    &&& follows_comma(src, channel.span.end as int, min.span.start as int) && value_node_at(
        src,
        min,
    )
    &&& follows_comma(src, min.span.end as int, max.span.start as int) && value_node_at(src, max)
    &&& follows_comma(src, max.span.end as int, retries.span.start as int) && value_node_at(
        src,
        retries,
    )
    &&& follows_comma(src, retries.span.end as int, message.span.start as int) && value_node_at(
        src,
        message,
    )
}

/// The statement the grammar reads at `pos`: it reads, spans from `pos`
/// to where the scan ends, renders the source, and holds exactly the
/// argument nodes the scans place.
pub open spec fn statement_at(src: Seq<char>, pos: int, node: ParsedExpr) -> bool {
    &&& 0 <= pos < src.len()
    &&& stmt_scan(src, pos).0
    &&& node.span.start == pos
    &&& node.span.end == stmt_scan(src, pos).1
    &&& matches_source(node, src)
    &&& statement_args_at(src, pos, node)
}

/// What one argument's check appends to the error list.
pub(crate) open spec fn delta1(
    check: ArgCheck,
    a: ParsedExpr,
    pre: Seq<Error>,
    post: Seq<Error>,
) -> bool {
    if check.admits(a.expr) {
        post == pre
    } else {
        post.len() == pre.len() + 1 && post.take(pre.len() as int) == pre && arg_error_fits(
            check,
            a,
            post.last(),
        )
    }
}

/// What two checked arguments append to the error list.
pub(crate) open spec fn delta2(
    c1: ArgCheck,
    a1: ParsedExpr,
    c2: ArgCheck,
    a2: ParsedExpr,
    pre: Seq<Error>,
    post: Seq<Error>,
) -> bool {
    let n0 = pre.len() as int;
    let ok1 = c1.admits(a1.expr);
    let ok2 = c2.admits(a2.expr);
    &&& post.len() == n0 + (if ok1 {
        0int
    } else {
        1int
    }) + (if ok2 {
        0int
    } else {
        1int
    })
    &&& post.take(n0) == pre
    &&& (ok1 && ok2 ==> post == pre)
    &&& (!ok1 ==> arg_error_fits(c1, a1, post[n0]))
    &&& (!ok2 ==> arg_error_fits(c2, a2, post.last()))
}

/// What the five checked arguments of a test command append to the error
/// list.
pub(crate) open spec fn delta5(
    a1: ParsedExpr,
    a2: ParsedExpr,
    a3: ParsedExpr,
    a4: ParsedExpr,
    a5: ParsedExpr,
    pre: Seq<Error>,
    post: Seq<Error>,
) -> bool {
    let n0 = pre.len() as int;
    let ok1 = ArgCheck::Byte.admits(a1.expr);
    let ok2 = ArgCheck::Uint.admits(a2.expr);
    let ok3 = ArgCheck::Uint.admits(a3.expr);
    let ok4 = ArgCheck::Uint.admits(a4.expr);
    let ok5 = ArgCheck::Str.admits(a5.expr);
    let c1 = n0 + (if ok1 { 0int } else { 1int });
    let c2 = c1 + (if ok2 { 0int } else { 1int });
    let c3 = c2 + (if ok3 { 0int } else { 1int });
    let c4 = c3 + (if ok4 { 0int } else { 1int });
    let c5 = c4 + (if ok5 { 0int } else { 1int });
    &&& post.len() == c5
    &&& post.take(n0) == pre
    &&& (ok1 && ok2 && ok3 && ok4 && ok5 ==> post == pre)
    &&& (!ok1 ==> arg_error_fits(ArgCheck::Byte, a1, post[n0]))
    &&& (!ok2 ==> arg_error_fits(ArgCheck::Uint, a2, post[c1]))
    &&& (!ok3 ==> arg_error_fits(ArgCheck::Uint, a3, post[c2]))
    &&& (!ok4 ==> arg_error_fits(ArgCheck::Uint, a4, post[c3]))
    &&& (!ok5 ==> arg_error_fits(ArgCheck::Str, a5, post[c4]))
}

/// What reading one statement appends to the error list: nothing for a
/// comment, a value or a command without arguments, and per argument
/// exactly what its check records.
pub(crate) open spec fn stmt_errors_fit(
    node: ParsedExpr,
    pre: Seq<Error>,
    post: Seq<Error>,
    limit: nat,
) -> bool {
    match node.expr {
        Expr::String(_) => post == pre,
        Expr::UInt(_) => post == pre,
        Expr::ScriptComment(_) => post == pre,
        Expr::HPMode => post == pre,
        Expr::Flush => post == pre,
        Expr::Protocol => post == pre,
        Expr::SetTime => post == pre,
        Expr::USBOpen => post == pre,
        Expr::USBClose => post == pre,
        Expr::USBSetTime => post == pre,
        Expr::IssueTest(_) => post == pre,
        Expr::TestResult { .. } => post == pre,
        Expr::Comment(x) => delta1(ArgCheck::Str, *x, pre, post),
        Expr::OpenDialog(x) => delta1(ArgCheck::Str, *x, pre, post),
        Expr::WaitDialog(x) => delta1(ArgCheck::Str, *x, pre, post),
        Expr::Wait(x) => delta1(ArgCheck::Uint, *x, pre, post),
        Expr::SetTimeFormat(x) => delta1(ArgCheck::Byte, *x, pre, post),
        Expr::TCUClose(x) => delta1(ArgCheck::Byte, *x, pre, post),
        Expr::TCUOpen(x) => delta1(ArgCheck::Byte, *x, pre, post),
        Expr::PrinterSet(x) => delta1(ArgCheck::Byte, *x, pre, post),
        Expr::USBSetTimeFormat(x) => delta1(ArgCheck::Byte, *x, pre, post),
        Expr::USBPrinterSet(x) => delta1(ArgCheck::Byte, *x, pre, post),
        Expr::SetOption { option, setting } => delta2(
            ArgCheck::Byte,
            *option,
            ArgCheck::Byte,
            *setting,
            pre,
            post,
        ),
        Expr::USBSetOption { option, setting } => delta2(
            ArgCheck::Byte,
            *option,
            ArgCheck::Byte,
            *setting,
            pre,
            post,
        ),
        Expr::TCUTest { channel, min, max, retries, message } => delta5(
            *channel,
            *min,
            *max,
            *retries,
            *message,
            pre,
            post,
        ),
        Expr::PrinterTest { channel, min, max, retries, message } => delta5(
            *channel,
            *min,
            *max,
            *retries,
            *message,
            pre,
            post,
        ),
        Expr::USBPrinterTest { channel, min, max, retries, message } => delta5(
            *channel,
            *min,
            *max,
            *retries,
            *message,
            pre,
            post,
        ),
        Expr::Print(xs) => post.len() == pre.len() + value_fail_count(xs@) && post.take(
            pre.len() as int,
        ) == pre && (value_fail_count(xs@) == 0 ==> post == pre) && (forall|k: int|
            pre.len() <= k < post.len() ==> value_err_shape(#[trigger] post[k], limit)),
        Expr::USBPrint(xs) => post.len() == pre.len() + value_fail_count(xs@) && post.take(
            pre.len() as int,
        ) == pre && (value_fail_count(xs@) == 0 ==> post == pre) && (forall|k: int|
            pre.len() <= k < post.len() ==> value_err_shape(#[trigger] post[k], limit)),
    }
}

/// Parse one statement: a comment from a semicolon to the end of its
/// line, a bare value, or a command with its arguments. Errors of an
/// argument's kind or range are recorded and parsing continues; anything
/// the grammar cannot read at all is returned as the fatal error.
#[verifier::rlimit(100)]
#[verifier::spinoff_prover]
fn parse_statement(cs: &Vec<char>, pos: usize, errors: &mut Vec<Error>) -> (r: Result<
    (ParsedExpr, usize),
    Error,
>)
    requires
        pos < cs@.len(),
    ensures
        final(errors)@.len() >= old(errors)@.len(),
        r is Ok <==> stmt_scan(cs@, pos as int).0,
        r matches Ok(t) ==> {
            &&& pos < t.1 <= cs@.len()
            &&& t.1 == t.0.span.end
            &&& statement_at(cs@, pos as int, t.0)
            &&& spans_within(t.0, cs@.len())
            &&& matches_source(t.0, cs@)
            &&& stmt_errors_fit(t.0, old(errors)@, final(errors)@, cs@.len())
            &&& (final(errors)@ == old(errors)@ <==> parsed_wf(t.0.expr))
            &&& stmt_scan(cs@, pos as int).2 == parsed_wf(t.0.expr)
            &&& (final(errors)@.len() == old(errors)@.len() ==> parsed_wf(t.0.expr))
        },
        r matches Err(e) ==> fatal_shape(e, cs@.len()),
{
    let n = cs.len();
    if pos >= n {
        return Err(unrecognised(pos, pos));
    }
    let c = cs[pos];
    if c == ';' {
        // A comment runs to the end of its line.
        let mut p = pos + 1;
        while p < cs.len() && cs[p] != '\n' && cs[p] != '\r'
            invariant
                pos + 1 <= p <= cs@.len(),
                line_scan_end(cs@, pos as int + 1) == line_scan_end(cs@, p as int),
            decreases cs@.len() - p,
        {
            p += 1;
        }
        proof {
            assert(line_scan_end(cs@, p as int) == p as int);
        }
        let content = string_of_range(cs, pos + 1, p);
        return Ok(
            (
                ParsedExpr {
                    expr: Expr::ScriptComment(content),
                    span: Span { start: pos, end: p },
                },
                p,
            ),
        );
    }
    if c == '"' || c == '$' || ('0' <= c && c <= '9') {
        // A bare value stands as a statement of its own.
        return parse_value(cs, pos);
    }
    if !(('A' <= c && c <= 'Z') || ('a' <= c && c <= 'z') || c == '_') {
        return Err(unrecognised(pos, pos + 1));
    }
    // Read the command word.
    let mut wend = pos + 1;
    loop
        invariant
            pos + 1 <= wend <= cs@.len(),
            word_scan_end(cs@, pos as int + 1) == word_scan_end(cs@, wend as int),
        ensures
            pos + 1 <= wend <= cs@.len(),
            wend == word_scan_end(cs@, pos as int + 1),
        decreases cs@.len() - wend,
    {
        if wend >= cs.len() {
            proof {
                assert(word_scan_end(cs@, wend as int) == wend as int);
            }
            break;
        }
        let w = cs[wend];
        let word_char = ('A' <= w && w <= 'Z') || ('a' <= w && w <= 'z') || ('0' <= w && w <= '9')
            || w == '_';
        if !word_char {
            proof {
                assert(word_scan_end(cs@, wend as int) == wend as int);
            }
            break;
        }
        wend += 1;
    }
    parse_command(cs, pos, wend, errors)
}

/// Whether the word at `pos` is one of the commands that take no
/// argument or exactly one.
pub open spec fn simple_command_word(src: Seq<char>, pos: int) -> bool {
    let w = word_scan_end(src, pos + 1);
    let word = src.subrange(pos, w);
    ||| word == "HPMODE"@
    ||| word == "FLUSH"@
    ||| word == "PROTOCOL"@
    ||| word == "SETTIME"@
    ||| word == "USBOPEN"@
    ||| word == "USBCLOSE"@
    ||| word == "USBSETTIME"@
    ||| word == "COMMENT"@
    ||| word == "OPENDIALOG"@
    ||| word == "WAITDIALOG"@
    ||| word == "WAIT"@
    ||| word == "SETTIMEFORMAT"@
    ||| word == "TCUCLOSE"@
    ||| word == "TCUOPEN"@
    ||| word == "PRINTERSET"@
    ||| word == "USBSETTIMEFORMAT"@
    ||| word == "USBPRINTERSET"@
}

/// Parse a command statement: the word at `pos` picks the argument
/// grammar; an unknown word is the fatal unrecognised-command error.
fn parse_command(cs: &Vec<char>, pos: usize, wend: usize, errors: &mut Vec<Error>) -> (r: Result<
    (ParsedExpr, usize),
    Error,
>)
    requires
        pos < cs@.len(),
        pos < wend <= cs@.len(),
        wend == word_scan_end(cs@, pos as int + 1),
    ensures
        final(errors)@.len() >= old(errors)@.len(),
        r is Ok <==> command_scan(cs@, pos as int).0,
        r matches Ok(t) ==> {
            &&& pos < t.1 <= cs@.len()
            &&& t.1 == t.0.span.end
            &&& t.0.span.start == pos
            &&& t.0.span.end == command_scan(cs@, pos as int).1
            &&& command_args_at(cs@, pos as int, t.0)
            &&& spans_within(t.0, cs@.len())
            &&& matches_source(t.0, cs@)
            &&& stmt_errors_fit(t.0, old(errors)@, final(errors)@, cs@.len())
            &&& (final(errors)@ == old(errors)@ <==> parsed_wf(t.0.expr))
            &&& command_scan(cs@, pos as int).2 == parsed_wf(t.0.expr)
            &&& (final(errors)@.len() == old(errors)@.len() ==> parsed_wf(t.0.expr))
        },
        r matches Err(e) ==> fatal_shape(e, cs@.len()),
{
    let simple = range_is(cs, pos, wend, "HPMODE") || range_is(cs, pos, wend, "FLUSH")
        || range_is(cs, pos, wend, "PROTOCOL") || range_is(cs, pos, wend, "SETTIME")
        || range_is(cs, pos, wend, "USBOPEN") || range_is(cs, pos, wend, "USBCLOSE")
        || range_is(cs, pos, wend, "USBSETTIME") || range_is(cs, pos, wend, "COMMENT")
        || range_is(cs, pos, wend, "OPENDIALOG") || range_is(cs, pos, wend, "WAITDIALOG")
        || range_is(cs, pos, wend, "WAIT") || range_is(cs, pos, wend, "SETTIMEFORMAT")
        || range_is(cs, pos, wend, "TCUCLOSE") || range_is(cs, pos, wend, "TCUOPEN")
        || range_is(cs, pos, wend, "PRINTERSET") || range_is(cs, pos, wend, "USBSETTIMEFORMAT")
        || range_is(cs, pos, wend, "USBPRINTERSET");
    if simple {
        parse_simple_command(cs, pos, wend, errors)
    } else {
        parse_compound_command(cs, pos, wend, errors)
    }
}

/// Parse the commands that take no argument or exactly one.
#[verifier::rlimit(100)]
#[verifier::spinoff_prover]
fn parse_simple_command(cs: &Vec<char>, pos: usize, wend: usize, errors: &mut Vec<Error>) -> (r:
    Result<(ParsedExpr, usize), Error>)
    requires
        pos < cs@.len(),
        pos < wend <= cs@.len(),
        wend == word_scan_end(cs@, pos as int + 1),
        simple_command_word(cs@, pos as int),
    ensures
        final(errors)@.len() >= old(errors)@.len(),
        r is Ok <==> command_scan(cs@, pos as int).0,
        r matches Ok(t) ==> {
            &&& pos < t.1 <= cs@.len()
            &&& t.1 == t.0.span.end
            &&& t.0.span.start == pos
            &&& t.0.span.end == command_scan(cs@, pos as int).1
            &&& command_args_at(cs@, pos as int, t.0)
            &&& spans_within(t.0, cs@.len())
            &&& matches_source(t.0, cs@)
            &&& stmt_errors_fit(t.0, old(errors)@, final(errors)@, cs@.len())
            &&& (final(errors)@ == old(errors)@ <==> parsed_wf(t.0.expr))
            &&& command_scan(cs@, pos as int).2 == parsed_wf(t.0.expr)
            &&& (final(errors)@.len() == old(errors)@.len() ==> parsed_wf(t.0.expr))
        },
        r matches Err(e) ==> fatal_shape(e, cs@.len()),
{
    if range_is(cs, pos, wend, "HPMODE") {
        return Ok((ParsedExpr { expr: Expr::HPMode, span: Span { start: pos, end: wend } }, wend));
    }
    if range_is(cs, pos, wend, "FLUSH") {
        return Ok((ParsedExpr { expr: Expr::Flush, span: Span { start: pos, end: wend } }, wend));
    }
    if range_is(cs, pos, wend, "PROTOCOL") {
        return Ok(
            (ParsedExpr { expr: Expr::Protocol, span: Span { start: pos, end: wend } }, wend),
        );
    }
    if range_is(cs, pos, wend, "SETTIME") {
        return Ok(
            (ParsedExpr { expr: Expr::SetTime, span: Span { start: pos, end: wend } }, wend),
        );
    }
    if range_is(cs, pos, wend, "USBOPEN") {
        return Ok(
            (ParsedExpr { expr: Expr::USBOpen, span: Span { start: pos, end: wend } }, wend),
        );
    }
    if range_is(cs, pos, wend, "USBCLOSE") {
        return Ok(
            (ParsedExpr { expr: Expr::USBClose, span: Span { start: pos, end: wend } }, wend),
        );
    }
    if range_is(cs, pos, wend, "USBSETTIME") {
        return Ok(
            (ParsedExpr { expr: Expr::USBSetTime, span: Span { start: pos, end: wend } }, wend),
        );
    }
    if range_is(cs, pos, wend, "COMMENT") {
        let (a, p) = match checked_arg(cs, wend, ArgCheck::Str, errors) {
            Ok(t) => t,
            Err(e) => {
                return Err(e);
            },
        };
        return Ok(
            (
                ParsedExpr {
                    expr: Expr::Comment(Box::new(a)),
                    span: Span { start: pos, end: p },
                },
                p,
            ),
        );
    }
    if range_is(cs, pos, wend, "OPENDIALOG") {
        let (a, p) = match checked_arg(cs, wend, ArgCheck::Str, errors) {
            Ok(t) => t,
            Err(e) => {
                return Err(e);
            },
        };
        return Ok(
            (
                ParsedExpr {
                    expr: Expr::OpenDialog(Box::new(a)),
                    span: Span { start: pos, end: p },
                },
                p,
            ),
        );
    }
    if range_is(cs, pos, wend, "WAITDIALOG") {
        let (a, p) = match checked_arg(cs, wend, ArgCheck::Str, errors) {
            Ok(t) => t,
            Err(e) => {
                return Err(e);
            },
        };
        return Ok(
            (
                ParsedExpr {
                    expr: Expr::WaitDialog(Box::new(a)),
                    span: Span { start: pos, end: p },
                },
                p,
            ),
        );
    }
    if range_is(cs, pos, wend, "WAIT") {
        let (a, p) = match checked_arg(cs, wend, ArgCheck::Uint, errors) {
            Ok(t) => t,
            Err(e) => {
                return Err(e);
            },
        };
        return Ok(
            (
                ParsedExpr { expr: Expr::Wait(Box::new(a)), span: Span { start: pos, end: p } },
                p,
            ),
        );
    }
    if range_is(cs, pos, wend, "SETTIMEFORMAT") {
        let (a, p) = match checked_arg(cs, wend, ArgCheck::Byte, errors) {
            Ok(t) => t,
            Err(e) => {
                return Err(e);
            },
        };
        return Ok(
            (
                ParsedExpr {
                    expr: Expr::SetTimeFormat(Box::new(a)),
                    span: Span { start: pos, end: p },
                },
                p,
            ),
        );
    }
    if range_is(cs, pos, wend, "TCUCLOSE") {
        let (a, p) = match checked_arg(cs, wend, ArgCheck::Byte, errors) {
            Ok(t) => t,
            Err(e) => {
                return Err(e);
            },
        };
        return Ok(
            (
                ParsedExpr {
                    expr: Expr::TCUClose(Box::new(a)),
                    span: Span { start: pos, end: p },
                },
                p,
            ),
        );
    }
    if range_is(cs, pos, wend, "TCUOPEN") {
        let (a, p) = match checked_arg(cs, wend, ArgCheck::Byte, errors) {
            Ok(t) => t,
            Err(e) => {
                return Err(e);
            },
        };
        return Ok(
            (
                ParsedExpr { expr: Expr::TCUOpen(Box::new(a)), span: Span { start: pos, end: p } },
                p,
            ),
        );
    }
    if range_is(cs, pos, wend, "PRINTERSET") {
        let (a, p) = match checked_arg(cs, wend, ArgCheck::Byte, errors) {
            Ok(t) => t,
            Err(e) => {
                return Err(e);
            },
        };
        return Ok(
            (
                ParsedExpr {
                    expr: Expr::PrinterSet(Box::new(a)),
                    span: Span { start: pos, end: p },
                },
                p,
            ),
        );
    }
    if range_is(cs, pos, wend, "USBSETTIMEFORMAT") {
        let (a, p) = match checked_arg(cs, wend, ArgCheck::Byte, errors) {
            Ok(t) => t,
            Err(e) => {
                return Err(e);
            },
        };
        return Ok(
            (
                ParsedExpr {
                    expr: Expr::USBSetTimeFormat(Box::new(a)),
                    span: Span { start: pos, end: p },
                },
                p,
            ),
        );
    }
    if range_is(cs, pos, wend, "USBPRINTERSET") {
        let (a, p) = match checked_arg(cs, wend, ArgCheck::Byte, errors) {
            Ok(t) => t,
            Err(e) => {
                return Err(e);
            },
        };
        return Ok(
            (
                ParsedExpr {
                    expr: Expr::USBPrinterSet(Box::new(a)),
                    span: Span { start: pos, end: p },
                },
                p,
            ),
        );
    }
    Err(unrecognised(pos, wend))
}

/// Whether the word at `pos` is one of the measurement test commands.
pub open spec fn test_command_word(src: Seq<char>, pos: int) -> bool {
    let w = word_scan_end(src, pos + 1);
    let word = src.subrange(pos, w);
    word == "TCUTEST"@ || word == "PRINTERTEST"@ || word == "USBPRINTERTEST"@
}

/// Parse one of the three measurement test commands.
#[verifier::rlimit(100)]
#[verifier::spinoff_prover]
fn parse_test_command(cs: &Vec<char>, pos: usize, wend: usize, errors: &mut Vec<Error>) -> (r:
    Result<(ParsedExpr, usize), Error>)
    requires
        pos < cs@.len(),
        pos < wend <= cs@.len(),
        wend == word_scan_end(cs@, pos as int + 1),
        test_command_word(cs@, pos as int),
        !simple_command_word(cs@, pos as int),
        cs@.subrange(pos as int, wend as int) != "SETOPTION"@,
        cs@.subrange(pos as int, wend as int) != "USBSETOPTION"@,
    ensures
        final(errors)@.len() >= old(errors)@.len(),
        r is Ok <==> command_scan(cs@, pos as int).0,
        r matches Ok(t) ==> {
            &&& pos < t.1 <= cs@.len()
            &&& t.1 == t.0.span.end
            &&& t.0.span.start == pos
            &&& t.0.span.end == command_scan(cs@, pos as int).1
            &&& command_args_at(cs@, pos as int, t.0)
            &&& spans_within(t.0, cs@.len())
            &&& matches_source(t.0, cs@)
            &&& stmt_errors_fit(t.0, old(errors)@, final(errors)@, cs@.len())
            &&& (final(errors)@ == old(errors)@ <==> parsed_wf(t.0.expr))
            &&& command_scan(cs@, pos as int).2 == parsed_wf(t.0.expr)
            &&& (final(errors)@.len() == old(errors)@.len() ==> parsed_wf(t.0.expr))
        },
        r matches Err(e) ==> fatal_shape(e, cs@.len()),
{
    if range_is(cs, pos, wend, "TCUTEST") {
        let (channel, min, max, retries, message, p) = match parse_test_args(cs, wend, errors) {
            Ok(t) => t,
            Err(e) => {
                return Err(e);
            },
        };
        return Ok(
            (
                ParsedExpr {
                    expr: Expr::TCUTest {
                        channel: Box::new(channel),
                        min: Box::new(min),
                        max: Box::new(max),
                        retries: Box::new(retries),
                        message: Box::new(message),
                    },
                    span: Span { start: pos, end: p },
                },
                p,
            ),
        );
    }
    if range_is(cs, pos, wend, "PRINTERTEST") {
        let (channel, min, max, retries, message, p) = match parse_test_args(cs, wend, errors) {
            Ok(t) => t,
            Err(e) => {
                return Err(e);
            },
        };
        return Ok(
            (
                ParsedExpr {
                    expr: Expr::PrinterTest {
                        channel: Box::new(channel),
                        min: Box::new(min),
                        max: Box::new(max),
                        retries: Box::new(retries),
                        message: Box::new(message),
                    },
                    span: Span { start: pos, end: p },
                },
                p,
            ),
        );
    }
    if range_is(cs, pos, wend, "USBPRINTERTEST") {
        let (channel, min, max, retries, message, p) = match parse_test_args(cs, wend, errors) {
            Ok(t) => t,
            Err(e) => {
                return Err(e);
            },
        };
        return Ok(
            (
                ParsedExpr {
                    expr: Expr::USBPrinterTest {
                        channel: Box::new(channel),
                        min: Box::new(min),
                        max: Box::new(max),
                        retries: Box::new(retries),
                        message: Box::new(message),
                    },
                    span: Span { start: pos, end: p },
                },
                p,
            ),
        );
    }
    Err(unrecognised(pos, wend))
}

/// Parse the commands that take two or more arguments, or a list of
/// them; any other word is unrecognised.
#[verifier::rlimit(100)]
#[verifier::spinoff_prover]
fn parse_compound_command(cs: &Vec<char>, pos: usize, wend: usize, errors: &mut Vec<Error>) -> (r:
    Result<(ParsedExpr, usize), Error>)
    requires
        pos < cs@.len(),
        pos < wend <= cs@.len(),
        wend == word_scan_end(cs@, pos as int + 1),
        !simple_command_word(cs@, pos as int),
    ensures
        final(errors)@.len() >= old(errors)@.len(),
        r is Ok <==> command_scan(cs@, pos as int).0,
        r matches Ok(t) ==> {
            &&& pos < t.1 <= cs@.len()
            &&& t.1 == t.0.span.end
            &&& t.0.span.start == pos
            &&& t.0.span.end == command_scan(cs@, pos as int).1
            &&& command_args_at(cs@, pos as int, t.0)
            &&& spans_within(t.0, cs@.len())
            &&& matches_source(t.0, cs@)
            &&& stmt_errors_fit(t.0, old(errors)@, final(errors)@, cs@.len())
            &&& (final(errors)@ == old(errors)@ <==> parsed_wf(t.0.expr))
            &&& command_scan(cs@, pos as int).2 == parsed_wf(t.0.expr)
            &&& (final(errors)@.len() == old(errors)@.len() ==> parsed_wf(t.0.expr))
        },
        r matches Err(e) ==> fatal_shape(e, cs@.len()),
{
    if range_is(cs, pos, wend, "SETOPTION") {
        let (option, setting, p) = match parse_two_bytes(cs, wend, errors) {
            Ok(t) => t,
            Err(e) => {
                return Err(e);
            },
        };
        return Ok(
            (
                ParsedExpr {
                    expr: Expr::SetOption { option: Box::new(option), setting: Box::new(setting) },
                    span: Span { start: pos, end: p },
                },
                p,
            ),
        );
    }
    if range_is(cs, pos, wend, "USBSETOPTION") {
        let (option, setting, p) = match parse_two_bytes(cs, wend, errors) {
            Ok(t) => t,
            Err(e) => {
                return Err(e);
            },
        };
        return Ok(
            (
                ParsedExpr {
                    expr: Expr::USBSetOption {
                        option: Box::new(option),
                        setting: Box::new(setting),
                    },
                    span: Span { start: pos, end: p },
                },
                p,
            ),
        );
    }
    if range_is(cs, pos, wend, "TCUTEST") || range_is(cs, pos, wend, "PRINTERTEST")
        || range_is(cs, pos, wend, "USBPRINTERTEST") {
        return parse_test_command(cs, pos, wend, errors);
    }
    if range_is(cs, pos, wend, "PRINT") {
        let (args, p) = match parse_variadic_args(cs, wend, errors) {
            Ok(t) => t,
            Err(e) => {
                return Err(e);
            },
        };
        proof {
            lemma_seq_spans_within_pointwise(args@, cs@.len());
            lemma_seq_matches_source_pointwise(args@, cs@);
            lemma_fail_count_zero(args@);
        }
        return Ok(
            (
                ParsedExpr { expr: Expr::Print(args), span: Span { start: pos, end: p } },
                p,
            ),
        );
    }
    if range_is(cs, pos, wend, "USBPRINT") {
        let (args, p) = match parse_variadic_args(cs, wend, errors) {
            Ok(t) => t,
            Err(e) => {
                return Err(e);
            },
        };
        proof {
            lemma_seq_spans_within_pointwise(args@, cs@.len());
            lemma_seq_matches_source_pointwise(args@, cs@);
            lemma_fail_count_zero(args@);
        }
        return Ok(
            (
                ParsedExpr { expr: Expr::USBPrint(args), span: Span { start: pos, end: p } },
                p,
            ),
        );
    }
    Err(unrecognised(pos, wend))
}


/// The recursive form of the list span bound agrees with its pointwise
/// reading.
proof fn lemma_seq_spans_within_pointwise(s: Seq<ParsedExpr>, limit: nat)
    ensures
        seq_spans_within(s, limit) <==> (forall|i: int|
            0 <= i < s.len() ==> spans_within(#[trigger] s[i], limit)),
    decreases s.len(),
{
    if s.len() > 0 {
        lemma_seq_spans_within_pointwise(s.drop_first(), limit);
        assert forall|i: int|
            0 <= i < s.len() && (spans_within(s[0], limit) && forall|j: int|
                0 <= j < s.drop_first().len() ==> spans_within(
                    #[trigger] s.drop_first()[j],
                    limit,
                )) implies spans_within(#[trigger] s[i], limit) by {
            if i > 0 {
                assert(s.drop_first()[i - 1] == s[i]);
            }
        }
        assert forall|j: int|
            0 <= j < s.drop_first().len() && (forall|i: int|
                0 <= i < s.len() ==> spans_within(#[trigger] s[i], limit)) implies spans_within(
            #[trigger] s.drop_first()[j],
            limit,
        ) by {
            assert(s.drop_first()[j] == s[j + 1]);
        }
    }
}

/// The recursive form of the source correspondence of a list agrees with
/// its pointwise reading.
proof fn lemma_seq_matches_source_pointwise(s: Seq<ParsedExpr>, src: Seq<char>)
    ensures
        seq_matches_source(s, src) <==> (forall|i: int|
            0 <= i < s.len() ==> matches_source(#[trigger] s[i], src)),
    decreases s.len(),
{
    if s.len() > 0 {
        lemma_seq_matches_source_pointwise(s.drop_first(), src);
        assert forall|i: int|
            0 <= i < s.len() && (matches_source(s[0], src) && forall|j: int|
                0 <= j < s.drop_first().len() ==> matches_source(
                    #[trigger] s.drop_first()[j],
                    src,
                )) implies matches_source(#[trigger] s[i], src) by {
            if i > 0 {
                assert(s.drop_first()[i - 1] == s[i]);
            }
        }
        assert forall|j: int|
            0 <= j < s.drop_first().len() && (forall|i: int|
                0 <= i < s.len() ==> matches_source(#[trigger] s[i], src)) implies matches_source(
            #[trigger] s.drop_first()[j],
            src,
        ) by {
            assert(s.drop_first()[j] == s[j + 1]);
        }
    }
}

/// Whether the read of a script from `pos` on stops at a statement the
/// grammar cannot read, and whether an argument of some statement fails
/// its check.
pub open spec fn script_scan(src: Seq<char>, pos: int) -> (bool, bool)
    decreases src.len() - pos,
{
    if !(0 <= pos <= src.len()) {
        (false, false)
    } else {
        let s = blank_end(src, pos);
        if s >= src.len() || s < pos {
            (false, false)
        } else {
            let st = stmt_scan(src, s);
            if !st.0 {
                (true, false)
            } else if st.1 <= s || st.1 > src.len() {
                (true, false)
            } else {
                let rest = script_scan(src, st.1);
                (rest.0, !st.2 || rest.1)
            }
        }
    }
}

/// The statements of a script, in order: the first begins after the
/// leading blanks, each next after the blanks that follow the one before,
/// every one reads from the source exactly as `statement_at` fixes it,
/// and only blanks follow the last.
pub open spec fn statements_match(src: Seq<char>, nodes: Seq<ParsedExpr>) -> bool {
    &&& (nodes.len() == 0 ==> blank_end(src, 0) >= src.len())
    &&& (nodes.len() > 0 ==> nodes[0].span.start == blank_end(src, 0))
    &&& (forall|i: int|
        0 <= i < nodes.len() ==> statement_at(
            src,
            (#[trigger] nodes[i]).span.start as int,
            nodes[i],
        ))
    &&& (forall|i: int|
        0 < i < nodes.len() ==> (#[trigger] nodes[i]).span.start == blank_end(
            src,
            nodes[i - 1].span.end as int,
        ))
    &&& (nodes.len() > 0 ==> blank_end(src, nodes.last().span.end as int) >= src.len())
}

/// Parse a script to its statements. The statements returned are exactly
/// the ones the grammar fixes for the source, in order; the parse fails
/// exactly when some statement cannot be read at all or some argument
/// fails its kind or range check, and it collects every argument error it
/// can before giving up, so an invalid argument is never silently part of
/// a returned tree.
#[verifier::rlimit(100)]
#[verifier::spinoff_prover]
pub fn parse_from_str(script: &str) -> (r: Result<Vec<ParsedExpr>, Vec<Error>>)
    ensures
        r matches Ok(nodes) ==> statements_match(script@, nodes@),
        r is Err <==> (script_scan(script@, 0).0 || script_scan(script@, 0).1),
        r matches Ok(nodes) ==> forall|i: int|
            0 <= i < nodes@.len() ==> spans_within(#[trigger] nodes@[i], script@.len()) && parsed_wf(
                nodes@[i].expr,
            ) && matches_source(nodes@[i], script@),
        r matches Err(errs) ==> errs@.len() > 0,
{
    let cs = chars_vec(script);
    let mut nodes: Vec<ParsedExpr> = Vec::new();
    let mut errors: Vec<Error> = Vec::new();
    let mut pos: usize = 0;
    loop
        invariant
            0 <= pos <= cs@.len(),
            cs@ == script@,
            pos as int == (if nodes@.len() == 0 {
                0int
            } else {
                nodes@.last().span.end as int
            }),
            nodes@.len() > 0 ==> nodes@[0].span.start == blank_end(cs@, 0),
            forall|i: int|
                0 <= i < nodes@.len() ==> statement_at(
                    cs@,
                    (#[trigger] nodes@[i]).span.start as int,
                    nodes@[i],
                ),
            forall|i: int|
                0 < i < nodes@.len() ==> (#[trigger] nodes@[i]).span.start == blank_end(
                    cs@,
                    nodes@[i - 1].span.end as int,
                ),
            script_scan(cs@, 0).0 == script_scan(cs@, pos as int).0,
            script_scan(cs@, 0).1 == (errors@.len() > 0 || script_scan(cs@, pos as int).1),
            forall|i: int|
                0 <= i < nodes@.len() ==> spans_within(#[trigger] nodes@[i], cs@.len())
                    && matches_source(nodes@[i], cs@),
            errors@.len() == 0 ==> forall|i: int|
                0 <= i < nodes@.len() ==> parsed_wf((#[trigger] nodes@[i]).expr),
        ensures
            script_scan(cs@, 0).0 == false,
            script_scan(cs@, 0).1 == (errors@.len() > 0),
            nodes@.len() == 0 ==> blank_end(cs@, 0) >= cs@.len(),
            nodes@.len() > 0 ==> nodes@[0].span.start == blank_end(cs@, 0),
            nodes@.len() > 0 ==> blank_end(cs@, nodes@.last().span.end as int) >= cs@.len(),
            forall|i: int|
                0 <= i < nodes@.len() ==> statement_at(
                    cs@,
                    (#[trigger] nodes@[i]).span.start as int,
                    nodes@[i],
                ),
            forall|i: int|
                0 < i < nodes@.len() ==> (#[trigger] nodes@[i]).span.start == blank_end(
                    cs@,
                    nodes@[i - 1].span.end as int,
                ),
            forall|i: int|
                0 <= i < nodes@.len() ==> spans_within(#[trigger] nodes@[i], cs@.len())
                    && matches_source(nodes@[i], cs@),
            errors@.len() == 0 ==> forall|i: int|
                0 <= i < nodes@.len() ==> parsed_wf((#[trigger] nodes@[i]).expr),
        decreases cs@.len() - pos,
    {
        let ghost pos0 = pos as int;
        let s = skip_blank(&cs, pos);
        if s >= cs.len() {
            proof {
                assert(script_scan(cs@, pos0) == (false, false));
            }
            break;
        }
        let ghost errors_before = errors@;
        match parse_statement(&cs, s, &mut errors) {
            Ok((node, p2)) => {
                proof {
                    assert(script_scan(cs@, pos0).0 == script_scan(cs@, p2 as int).0);
                }
                nodes.push(node);
                pos = p2;
            },
            Err(fatal) => {
                proof {
                    assert(script_scan(cs@, pos0).0);
                }
                errors.push(fatal);
                return Err(errors);
            },
        }
    }
    if errors.len() > 0 {
        Err(errors)
    } else {
        Ok(nodes)
    }
}

} // verus!
