use vstd::prelude::*;

verus! {

/// A half-open range of positions into the source text.
#[derive(Clone, Copy, Debug, PartialEq, Eq, Structural)]
pub struct Span {
    pub start: usize,
    pub end: usize,
}

impl Span {
    /// The span lies within a source of `limit` characters.
    pub open spec fn within(self, limit: nat) -> bool {
        self.start <= self.end <= limit
    }

    pub fn empty() -> (s: Span)
        ensures
            s == (Span { start: 0usize, end: 0usize }),
    {
        Span { start: 0, end: 0 }
    }
}

/// The kind of an expression, without its payload.
#[derive(Clone, Copy, Debug, PartialEq, Eq, Structural)]
pub enum ExprKind {
    String,
    UInt,
    ScriptComment,
    HPMode,
    Comment,
    Wait,
    OpenDialog,
    WaitDialog,
    Flush,
    Protocol,
    Print,
    SetTimeFormat,
    SetTime,
    SetOption,
    TCUClose,
    TCUOpen,
    TCUTest,
    PrinterSet,
    PrinterTest,
    IssueTest,
    TestResult,
    USBOpen,
    USBClose,
    USBPrint,
    USBSetTimeFormat,
    USBSetTime,
    USBSetOption,
    USBPrinterSet,
    USBPrinterTest,
}

/// An expression of the script language: a value, a comment, or a command
/// with its argument expressions.
#[derive(Debug)]
pub enum Expr {
    String(String),
    UInt(u32),
    ScriptComment(String),
    HPMode,
    Comment(Box<ParsedExpr>),
    Wait(Box<ParsedExpr>),
    OpenDialog(Box<ParsedExpr>),
    WaitDialog(Box<ParsedExpr>),
    Flush,
    Protocol,
    Print(Vec<ParsedExpr>),
    SetTimeFormat(Box<ParsedExpr>),
    SetTime,
    SetOption { option: Box<ParsedExpr>, setting: Box<ParsedExpr> },
    TCUClose(Box<ParsedExpr>),
    TCUOpen(Box<ParsedExpr>),
    TCUTest {
        channel: Box<ParsedExpr>,
        min: Box<ParsedExpr>,
        max: Box<ParsedExpr>,
        retries: Box<ParsedExpr>,
        message: Box<ParsedExpr>,
    },
    PrinterSet(Box<ParsedExpr>),
    PrinterTest {
        channel: Box<ParsedExpr>,
        min: Box<ParsedExpr>,
        max: Box<ParsedExpr>,
        retries: Box<ParsedExpr>,
        message: Box<ParsedExpr>,
    },
    IssueTest(Box<ParsedExpr>),
    TestResult { min: Box<ParsedExpr>, max: Box<ParsedExpr>, message: Box<ParsedExpr> },
    USBOpen,
    USBClose,
    USBPrint(Vec<ParsedExpr>),
    USBSetTimeFormat(Box<ParsedExpr>),
    USBSetTime,
    USBSetOption { option: Box<ParsedExpr>, setting: Box<ParsedExpr> },
    USBPrinterSet(Box<ParsedExpr>),
    USBPrinterTest {
        channel: Box<ParsedExpr>,
        min: Box<ParsedExpr>,
        max: Box<ParsedExpr>,
        retries: Box<ParsedExpr>,
        message: Box<ParsedExpr>,
    },
}

/// An expression together with the source span it was parsed from.
#[derive(Debug)]
pub struct ParsedExpr {
    pub expr: Expr,
    pub span: Span,
}

impl ParsedExpr {
    pub fn from_kind_and_span(expr: Expr, span: Span) -> (r: Self)
        ensures
            r.expr == expr,
            r.span == span,
    {
        Self { expr, span }
    }

    /// Return a new node with a default span. Primarily intended for use in
    /// testing.
    pub fn from_kind_default(expr: Expr) -> (r: Self)
        ensures
            r.expr == expr,
            r.span == (Span { start: 0usize, end: 0usize }),
    {
        Self { expr, span: Span::empty() }
    }

    /// Return a new String node with a default span. Primarily intended for
    /// use in testing.
    pub fn from_str_default(string: &str) -> (r: Self)
        ensures
            r.expr matches Expr::String(s) && s@ == string@,
            r.span == (Span { start: 0usize, end: 0usize }),
    {
        Self { expr: Expr::String(string.to_owned()), span: Span::empty() }
    }

    /// Return a new UInt node with a default span. Primarily intended for use
    /// in testing.
    pub fn from_uint_default(uint: u32) -> (r: Self)
        ensures
            r.expr == Expr::UInt(uint),
            r.span == (Span { start: 0usize, end: 0usize }),
    {
        Self { expr: Expr::UInt(uint), span: Span::empty() }
    }

    pub fn expression(&self) -> (r: &Expr)
        ensures
            r == &self.expr,
    {
        &self.expr
    }

    pub fn span(&self) -> (r: Span)
        ensures
            r == self.span,
    {
        self.span
    }

    pub fn expression_kind(&self) -> (r: ExprKind)
        ensures
            r == self.expr.kind(),
    {
        self.expr.kind_of()
    }
}

impl Expr {
    /// The kind of this expression.
    pub open spec fn kind(self) -> ExprKind {
        match self {
            Expr::String(_) => ExprKind::String,
            Expr::UInt(_) => ExprKind::UInt,
            Expr::ScriptComment(_) => ExprKind::ScriptComment,
            Expr::HPMode => ExprKind::HPMode,
            Expr::Comment(_) => ExprKind::Comment,
            Expr::Wait(_) => ExprKind::Wait,
            Expr::OpenDialog(_) => ExprKind::OpenDialog,
            Expr::WaitDialog(_) => ExprKind::WaitDialog,
            Expr::Flush => ExprKind::Flush,
            Expr::Protocol => ExprKind::Protocol,
            Expr::Print(_) => ExprKind::Print,
            Expr::SetTimeFormat(_) => ExprKind::SetTimeFormat,
            Expr::SetTime => ExprKind::SetTime,
            Expr::SetOption { .. } => ExprKind::SetOption,
            Expr::TCUClose(_) => ExprKind::TCUClose,
            Expr::TCUOpen(_) => ExprKind::TCUOpen,
            Expr::TCUTest { .. } => ExprKind::TCUTest,
            Expr::PrinterSet(_) => ExprKind::PrinterSet,
            Expr::PrinterTest { .. } => ExprKind::PrinterTest,
            Expr::IssueTest(_) => ExprKind::IssueTest,
            Expr::TestResult { .. } => ExprKind::TestResult,
            Expr::USBOpen => ExprKind::USBOpen,
            Expr::USBClose => ExprKind::USBClose,
            Expr::USBPrint(_) => ExprKind::USBPrint,
            Expr::USBSetTimeFormat(_) => ExprKind::USBSetTimeFormat,
            Expr::USBSetTime => ExprKind::USBSetTime,
            Expr::USBSetOption { .. } => ExprKind::USBSetOption,
            Expr::USBPrinterSet(_) => ExprKind::USBPrinterSet,
            Expr::USBPrinterTest { .. } => ExprKind::USBPrinterTest,
        }
    }

    /// The kind of this expression.
    pub fn kind_of(&self) -> (r: ExprKind)
        ensures
            r == self.kind(),
    {
        match self {
            Expr::String(_) => ExprKind::String,
            Expr::UInt(_) => ExprKind::UInt,
            Expr::ScriptComment(_) => ExprKind::ScriptComment,
            Expr::HPMode => ExprKind::HPMode,
            Expr::Comment(_) => ExprKind::Comment,
            Expr::Wait(_) => ExprKind::Wait,
            Expr::OpenDialog(_) => ExprKind::OpenDialog,
            Expr::WaitDialog(_) => ExprKind::WaitDialog,
            Expr::Flush => ExprKind::Flush,
            Expr::Protocol => ExprKind::Protocol,
            Expr::Print(_) => ExprKind::Print,
            Expr::SetTimeFormat(_) => ExprKind::SetTimeFormat,
            Expr::SetTime => ExprKind::SetTime,
            Expr::SetOption { .. } => ExprKind::SetOption,
            Expr::TCUClose(_) => ExprKind::TCUClose,
            Expr::TCUOpen(_) => ExprKind::TCUOpen,
            Expr::TCUTest { .. } => ExprKind::TCUTest,
            Expr::PrinterSet(_) => ExprKind::PrinterSet,
            Expr::PrinterTest { .. } => ExprKind::PrinterTest,
            Expr::IssueTest(_) => ExprKind::IssueTest,
            Expr::TestResult { .. } => ExprKind::TestResult,
            Expr::USBOpen => ExprKind::USBOpen,
            Expr::USBClose => ExprKind::USBClose,
            Expr::USBPrint(_) => ExprKind::USBPrint,
            Expr::USBSetTimeFormat(_) => ExprKind::USBSetTimeFormat,
            Expr::USBSetTime => ExprKind::USBSetTime,
            Expr::USBSetOption { .. } => ExprKind::USBSetOption,
            Expr::USBPrinterSet(_) => ExprKind::USBPrinterSet,
            Expr::USBPrinterTest { .. } => ExprKind::USBPrinterTest,
        }
    }
}

/// Structural equivalence of two expressions. Strings are compared by
/// contents. When `spans` is false the source spans of argument nodes are
/// ignored, which is the meaning of `==` on expression trees; when `spans`
/// is true the spans must agree as well, which is what `clone` preserves.
pub open spec fn expr_equiv(a: Expr, b: Expr, spans: bool) -> bool
    decreases a, 1int,
{
    match (a, b) {
        (Expr::String(x), Expr::String(y)) => x@ == y@,
        (Expr::UInt(x), Expr::UInt(y)) => x == y,
        (Expr::ScriptComment(x), Expr::ScriptComment(y)) => x@ == y@,
        (Expr::HPMode, Expr::HPMode) => true,
        (Expr::Comment(x), Expr::Comment(y)) => pexpr_equiv(*x, *y, spans),
        (Expr::Wait(x), Expr::Wait(y)) => pexpr_equiv(*x, *y, spans),
        (Expr::OpenDialog(x), Expr::OpenDialog(y)) => pexpr_equiv(*x, *y, spans),
        (Expr::WaitDialog(x), Expr::WaitDialog(y)) => pexpr_equiv(*x, *y, spans),
        (Expr::Flush, Expr::Flush) => true,
        (Expr::Protocol, Expr::Protocol) => true,
        (Expr::Print(xs), Expr::Print(ys)) => pexpr_seq_equiv(xs@, ys@, spans),
        (Expr::SetTimeFormat(x), Expr::SetTimeFormat(y)) => pexpr_equiv(*x, *y, spans),
        (Expr::SetTime, Expr::SetTime) => true,
        (
            Expr::SetOption { option: o1, setting: s1 },
            Expr::SetOption { option: o2, setting: s2 },
        ) => pexpr_equiv(*o1, *o2, spans) && pexpr_equiv(*s1, *s2, spans),
        (Expr::TCUClose(x), Expr::TCUClose(y)) => pexpr_equiv(*x, *y, spans),
        (Expr::TCUOpen(x), Expr::TCUOpen(y)) => pexpr_equiv(*x, *y, spans),
        (
            Expr::TCUTest { channel: c1, min: mn1, max: mx1, retries: r1, message: ms1 },
            Expr::TCUTest { channel: c2, min: mn2, max: mx2, retries: r2, message: ms2 },
        ) => pexpr_equiv(*c1, *c2, spans) && pexpr_equiv(*mn1, *mn2, spans) && pexpr_equiv(
            *mx1,
            *mx2,
            spans,
        ) && pexpr_equiv(*r1, *r2, spans) && pexpr_equiv(*ms1, *ms2, spans),
        (Expr::PrinterSet(x), Expr::PrinterSet(y)) => pexpr_equiv(*x, *y, spans),
        (
            Expr::PrinterTest { channel: c1, min: mn1, max: mx1, retries: r1, message: ms1 },
            Expr::PrinterTest { channel: c2, min: mn2, max: mx2, retries: r2, message: ms2 },
        ) => pexpr_equiv(*c1, *c2, spans) && pexpr_equiv(*mn1, *mn2, spans) && pexpr_equiv(
            *mx1,
            *mx2,
            spans,
        ) && pexpr_equiv(*r1, *r2, spans) && pexpr_equiv(*ms1, *ms2, spans),
        (Expr::IssueTest(x), Expr::IssueTest(y)) => pexpr_equiv(*x, *y, spans),
        (
            Expr::TestResult { min: mn1, max: mx1, message: ms1 },
            Expr::TestResult { min: mn2, max: mx2, message: ms2 },
        ) => pexpr_equiv(*mn1, *mn2, spans) && pexpr_equiv(*mx1, *mx2, spans) && pexpr_equiv(
            *ms1,
            *ms2,
            spans,
        ),
        (Expr::USBOpen, Expr::USBOpen) => true,
        (Expr::USBClose, Expr::USBClose) => true,
        (Expr::USBPrint(xs), Expr::USBPrint(ys)) => pexpr_seq_equiv(xs@, ys@, spans),
        (Expr::USBSetTimeFormat(x), Expr::USBSetTimeFormat(y)) => pexpr_equiv(*x, *y, spans),
        (Expr::USBSetTime, Expr::USBSetTime) => true,
        (
            Expr::USBSetOption { option: o1, setting: s1 },
            Expr::USBSetOption { option: o2, setting: s2 },
        ) => pexpr_equiv(*o1, *o2, spans) && pexpr_equiv(*s1, *s2, spans),
        (Expr::USBPrinterSet(x), Expr::USBPrinterSet(y)) => pexpr_equiv(*x, *y, spans),
        (
            Expr::USBPrinterTest { channel: c1, min: mn1, max: mx1, retries: r1, message: ms1 },
            Expr::USBPrinterTest { channel: c2, min: mn2, max: mx2, retries: r2, message: ms2 },
        ) => pexpr_equiv(*c1, *c2, spans) && pexpr_equiv(*mn1, *mn2, spans) && pexpr_equiv(
            *mx1,
            *mx2,
            spans,
        ) && pexpr_equiv(*r1, *r2, spans) && pexpr_equiv(*ms1, *ms2, spans),
        _ => false,
    }
}

/// Structural equivalence of two parsed nodes; the nodes' own spans are
/// compared only when `spans` is true.
pub open spec fn pexpr_equiv(a: ParsedExpr, b: ParsedExpr, spans: bool) -> bool
    decreases a, 2int,
{
    (spans ==> a.span == b.span) && expr_equiv(a.expr, b.expr, spans)
}

/// Pointwise structural equivalence of two sequences of parsed nodes.
pub open spec fn pexpr_seq_equiv(s1: Seq<ParsedExpr>, s2: Seq<ParsedExpr>, spans: bool) -> bool
    decreases s1, 3int,
{
    s1.len() == s2.len() && (s1.len() == 0 || (pexpr_equiv(s1[0], s2[0], spans) && pexpr_seq_equiv(
        s1.drop_first(),
        s2.drop_first(),
        spans,
    )))
}

/// Decide structural equivalence of two expressions, ignoring spans.
fn expr_eq_exec(a: &Expr, b: &Expr) -> (r: bool)
    ensures
        r == expr_equiv(*a, *b, false),
    decreases *a, 1int,
{
    match (a, b) {
        (Expr::String(x), Expr::String(y)) => *x == *y,
        (Expr::UInt(x), Expr::UInt(y)) => *x == *y,
        (Expr::ScriptComment(x), Expr::ScriptComment(y)) => *x == *y,
        (Expr::HPMode, Expr::HPMode) => true,
        (Expr::Comment(x), Expr::Comment(y)) => pexpr_eq_exec(x, y),
        (Expr::Wait(x), Expr::Wait(y)) => pexpr_eq_exec(x, y),
        (Expr::OpenDialog(x), Expr::OpenDialog(y)) => pexpr_eq_exec(x, y),
        (Expr::WaitDialog(x), Expr::WaitDialog(y)) => pexpr_eq_exec(x, y),
        (Expr::Flush, Expr::Flush) => true,
        (Expr::Protocol, Expr::Protocol) => true,
        (Expr::Print(xs), Expr::Print(ys)) => pexpr_vec_eq_exec(xs, ys),
        (Expr::SetTimeFormat(x), Expr::SetTimeFormat(y)) => pexpr_eq_exec(x, y),
        (Expr::SetTime, Expr::SetTime) => true,
        (
            Expr::SetOption { option: o1, setting: s1 },
            Expr::SetOption { option: o2, setting: s2 },
        ) => pexpr_eq_exec(o1, o2) && pexpr_eq_exec(s1, s2),
        (Expr::TCUClose(x), Expr::TCUClose(y)) => pexpr_eq_exec(x, y),
        (Expr::TCUOpen(x), Expr::TCUOpen(y)) => pexpr_eq_exec(x, y),
        (
            Expr::TCUTest { channel: c1, min: mn1, max: mx1, retries: r1, message: ms1 },
            Expr::TCUTest { channel: c2, min: mn2, max: mx2, retries: r2, message: ms2 },
        ) => pexpr_eq_exec(c1, c2) && pexpr_eq_exec(mn1, mn2) && pexpr_eq_exec(mx1, mx2)
            && pexpr_eq_exec(r1, r2) && pexpr_eq_exec(ms1, ms2),
        (Expr::PrinterSet(x), Expr::PrinterSet(y)) => pexpr_eq_exec(x, y),
        (
            Expr::PrinterTest { channel: c1, min: mn1, max: mx1, retries: r1, message: ms1 },
            Expr::PrinterTest { channel: c2, min: mn2, max: mx2, retries: r2, message: ms2 },
        ) => pexpr_eq_exec(c1, c2) && pexpr_eq_exec(mn1, mn2) && pexpr_eq_exec(mx1, mx2)
            && pexpr_eq_exec(r1, r2) && pexpr_eq_exec(ms1, ms2),
        (Expr::IssueTest(x), Expr::IssueTest(y)) => pexpr_eq_exec(x, y),
        (
            Expr::TestResult { min: mn1, max: mx1, message: ms1 },
            Expr::TestResult { min: mn2, max: mx2, message: ms2 },
        ) => pexpr_eq_exec(mn1, mn2) && pexpr_eq_exec(mx1, mx2) && pexpr_eq_exec(ms1, ms2),
        (Expr::USBOpen, Expr::USBOpen) => true,
        (Expr::USBClose, Expr::USBClose) => true,
        (Expr::USBPrint(xs), Expr::USBPrint(ys)) => pexpr_vec_eq_exec(xs, ys),
        (Expr::USBSetTimeFormat(x), Expr::USBSetTimeFormat(y)) => pexpr_eq_exec(x, y),
        (Expr::USBSetTime, Expr::USBSetTime) => true,
        (
            Expr::USBSetOption { option: o1, setting: s1 },
            Expr::USBSetOption { option: o2, setting: s2 },
        ) => pexpr_eq_exec(o1, o2) && pexpr_eq_exec(s1, s2),
        (Expr::USBPrinterSet(x), Expr::USBPrinterSet(y)) => pexpr_eq_exec(x, y),
        (
            Expr::USBPrinterTest { channel: c1, min: mn1, max: mx1, retries: r1, message: ms1 },
            Expr::USBPrinterTest { channel: c2, min: mn2, max: mx2, retries: r2, message: ms2 },
        ) => pexpr_eq_exec(c1, c2) && pexpr_eq_exec(mn1, mn2) && pexpr_eq_exec(mx1, mx2)
            && pexpr_eq_exec(r1, r2) && pexpr_eq_exec(ms1, ms2),
        _ => false,
    }
}

/// Decide structural equivalence of two parsed nodes, ignoring spans.
fn pexpr_eq_exec(a: &ParsedExpr, b: &ParsedExpr) -> (r: bool)
    ensures
        r == pexpr_equiv(*a, *b, false),
    decreases *a, 2int,
{
    expr_eq_exec(&a.expr, &b.expr)
}

/// Decide pointwise structural equivalence of two argument lists, ignoring
/// spans.
fn pexpr_vec_eq_exec(xs: &Vec<ParsedExpr>, ys: &Vec<ParsedExpr>) -> (r: bool)
    ensures
        r == pexpr_seq_equiv(xs@, ys@, false),
    decreases xs@, 3int,
{
    if xs.len() != ys.len() {
        return false;
    }
    let mut i: usize = 0;
    while i < xs.len()
        invariant
            0 <= i <= xs@.len(),
            xs@.len() == ys@.len(),
            forall|j: int|
                0 <= j < i ==> pexpr_equiv(#[trigger] xs@[j], ys@[j], false),
        decreases xs@.len() - i,
    {
        proof {
            assert(decreases_to!(xs@, 3int => xs@[i as int], 2int));
        }
        if !pexpr_eq_exec(&xs[i], &ys[i]) {
            proof {
                lemma_pexpr_seq_equiv_pointwise(xs@, ys@, false);
            }
            return false;
        }
        i += 1;
    }
    proof {
        lemma_pexpr_seq_equiv_pointwise(xs@, ys@, false);
    }
    true
}

/// The recursive sequence equivalence agrees with its pointwise reading.
proof fn lemma_pexpr_seq_equiv_pointwise(s1: Seq<ParsedExpr>, s2: Seq<ParsedExpr>, spans: bool)
    requires
        s1.len() == s2.len(),
    ensures
        pexpr_seq_equiv(s1, s2, spans) <==> (forall|i: int|
            0 <= i < s1.len() ==> pexpr_equiv(#[trigger] s1[i], s2[i], spans)),
    decreases s1.len(),
{
    if s1.len() > 0 {
        lemma_pexpr_seq_equiv_pointwise(s1.drop_first(), s2.drop_first(), spans);
        assert forall|i: int|
            0 <= i < s1.len() && (pexpr_equiv(s1[0], s2[0], spans) && forall|j: int|
                0 <= j < s1.drop_first().len() ==> pexpr_equiv(
                    #[trigger] s1.drop_first()[j],
                    s2.drop_first()[j],
                    spans,
                )) implies pexpr_equiv(#[trigger] s1[i], s2[i], spans) by {
            if i > 0 {
                assert(s1.drop_first()[i - 1] == s1[i]);
                assert(s2.drop_first()[i - 1] == s2[i]);
            }
        }
        assert forall|j: int|
            0 <= j < s1.drop_first().len() && (forall|i: int|
                0 <= i < s1.len() ==> pexpr_equiv(#[trigger] s1[i], s2[i], spans)) implies
            pexpr_equiv(#[trigger] s1.drop_first()[j], s2.drop_first()[j], spans) by {
            assert(s1.drop_first()[j] == s1[j + 1]);
            assert(s2.drop_first()[j] == s2[j + 1]);
        }
    }
}

impl PartialEq for Expr {
    fn eq(&self, other: &Self) -> (r: bool) {
        expr_eq_exec(self, other)
    }
}

impl vstd::std_specs::cmp::PartialEqSpecImpl for Expr {
    open spec fn obeys_eq_spec() -> bool {
        true
    }

    open spec fn eq_spec(&self, other: &Expr) -> bool {
        expr_equiv(*self, *other, false)
    }
}

impl PartialEq for ParsedExpr {
    fn eq(&self, other: &Self) -> (r: bool) {
        pexpr_eq_exec(self, other)
    }
}

impl vstd::std_specs::cmp::PartialEqSpecImpl for ParsedExpr {
    open spec fn obeys_eq_spec() -> bool {
        true
    }

    open spec fn eq_spec(&self, other: &ParsedExpr) -> bool {
        pexpr_equiv(*self, *other, false)
    }
}

impl Clone for Expr {
    /// Clone the expression exactly, spans included.
    fn clone(&self) -> (res: Self)
        ensures
            expr_equiv(res, *self, true),
        decreases *self, 1int,
    {
        match self {
            Expr::String(x) => Expr::String(x.clone()),
            Expr::UInt(x) => Expr::UInt(*x),
            Expr::ScriptComment(x) => Expr::ScriptComment(x.clone()),
            Expr::HPMode => Expr::HPMode,
            Expr::Comment(x) => Expr::Comment(Box::new(pexpr_clone_exec(x))),
            Expr::Wait(x) => Expr::Wait(Box::new(pexpr_clone_exec(x))),
            Expr::OpenDialog(x) => Expr::OpenDialog(Box::new(pexpr_clone_exec(x))),
            Expr::WaitDialog(x) => Expr::WaitDialog(Box::new(pexpr_clone_exec(x))),
            Expr::Flush => Expr::Flush,
            Expr::Protocol => Expr::Protocol,
            Expr::Print(xs) => Expr::Print(pexpr_vec_clone_exec(xs)),
            Expr::SetTimeFormat(x) => Expr::SetTimeFormat(Box::new(pexpr_clone_exec(x))),
            Expr::SetTime => Expr::SetTime,
            Expr::SetOption { option, setting } => Expr::SetOption {
                option: Box::new(pexpr_clone_exec(option)),
                setting: Box::new(pexpr_clone_exec(setting)),
            },
            Expr::TCUClose(x) => Expr::TCUClose(Box::new(pexpr_clone_exec(x))),
            Expr::TCUOpen(x) => Expr::TCUOpen(Box::new(pexpr_clone_exec(x))),
            Expr::TCUTest { channel, min, max, retries, message } => Expr::TCUTest {
                channel: Box::new(pexpr_clone_exec(channel)),
                min: Box::new(pexpr_clone_exec(min)),
                max: Box::new(pexpr_clone_exec(max)),
                retries: Box::new(pexpr_clone_exec(retries)),
                message: Box::new(pexpr_clone_exec(message)),
            },
            Expr::PrinterSet(x) => Expr::PrinterSet(Box::new(pexpr_clone_exec(x))),
            Expr::PrinterTest { channel, min, max, retries, message } => Expr::PrinterTest {
                channel: Box::new(pexpr_clone_exec(channel)),
                min: Box::new(pexpr_clone_exec(min)),
                max: Box::new(pexpr_clone_exec(max)),
                retries: Box::new(pexpr_clone_exec(retries)),
                message: Box::new(pexpr_clone_exec(message)),
            },
            Expr::IssueTest(x) => Expr::IssueTest(Box::new(pexpr_clone_exec(x))),
            Expr::TestResult { min, max, message } => Expr::TestResult {
                min: Box::new(pexpr_clone_exec(min)),
                max: Box::new(pexpr_clone_exec(max)),
                message: Box::new(pexpr_clone_exec(message)),
            },
            Expr::USBOpen => Expr::USBOpen,
            Expr::USBClose => Expr::USBClose,
            Expr::USBPrint(xs) => Expr::USBPrint(pexpr_vec_clone_exec(xs)),
            Expr::USBSetTimeFormat(x) => Expr::USBSetTimeFormat(Box::new(pexpr_clone_exec(x))),
            Expr::USBSetTime => Expr::USBSetTime,
            Expr::USBSetOption { option, setting } => Expr::USBSetOption {
                option: Box::new(pexpr_clone_exec(option)),
                setting: Box::new(pexpr_clone_exec(setting)),
            },
            Expr::USBPrinterSet(x) => Expr::USBPrinterSet(Box::new(pexpr_clone_exec(x))),
            Expr::USBPrinterTest { channel, min, max, retries, message } => Expr::USBPrinterTest {
                channel: Box::new(pexpr_clone_exec(channel)),
                min: Box::new(pexpr_clone_exec(min)),
                max: Box::new(pexpr_clone_exec(max)),
                retries: Box::new(pexpr_clone_exec(retries)),
                message: Box::new(pexpr_clone_exec(message)),
            },
        }
    }
}

/// Clone a parsed node exactly, span included.
fn pexpr_clone_exec(a: &ParsedExpr) -> (res: ParsedExpr)
    ensures
        pexpr_equiv(res, *a, true),
    decreases *a, 2int,
{
    ParsedExpr { expr: a.expr.clone(), span: a.span }
}

/// Clone an argument list exactly, spans included.
fn pexpr_vec_clone_exec(xs: &Vec<ParsedExpr>) -> (res: Vec<ParsedExpr>)
    ensures
        pexpr_seq_equiv(res@, xs@, true),
    decreases xs@, 3int,
{
    let mut res: Vec<ParsedExpr> = Vec::new();
    let mut i: usize = 0;
    while i < xs.len()
        invariant
            0 <= i <= xs@.len(),
            res@.len() == i,
            forall|j: int|
                0 <= j < i ==> pexpr_equiv(#[trigger] res@[j], xs@[j], true),
        decreases xs@.len() - i,
    {
        proof {
            assert(decreases_to!(xs@, 3int => xs@[i as int], 2int));
        }
        res.push(pexpr_clone_exec(&xs[i]));
        i += 1;
    }
    proof {
        lemma_pexpr_seq_equiv_pointwise(res@, xs@, true);
    }
    res
}

impl Clone for ParsedExpr {
    /// Clone the node exactly, spans included.
    fn clone(&self) -> (res: Self)
        ensures
            pexpr_equiv(res, *self, true),
    {
        pexpr_clone_exec(self)
    }
}

/// Equivalence that tracks spans is stronger than the span-ignoring
/// equality of expression trees.
pub proof fn lemma_equiv_forgets_spans(a: ParsedExpr, b: ParsedExpr)
    requires
        pexpr_equiv(a, b, true),
    ensures
        pexpr_equiv(a, b, false),
    decreases a, 2int,
{
    lemma_expr_equiv_forgets_spans(a.expr, b.expr);
}

proof fn lemma_expr_equiv_forgets_spans(a: Expr, b: Expr)
    requires
        expr_equiv(a, b, true),
    ensures
        expr_equiv(a, b, false),
    decreases a, 1int,
{
    match (a, b) {
        (Expr::Comment(x), Expr::Comment(y)) => lemma_equiv_forgets_spans(*x, *y),
        (Expr::Wait(x), Expr::Wait(y)) => lemma_equiv_forgets_spans(*x, *y),
        (Expr::OpenDialog(x), Expr::OpenDialog(y)) => lemma_equiv_forgets_spans(*x, *y),
        (Expr::WaitDialog(x), Expr::WaitDialog(y)) => lemma_equiv_forgets_spans(*x, *y),
        (Expr::Print(xs), Expr::Print(ys)) => lemma_seq_equiv_forgets_spans(xs@, ys@),
        (Expr::SetTimeFormat(x), Expr::SetTimeFormat(y)) => lemma_equiv_forgets_spans(*x, *y),
        (
            Expr::SetOption { option: o1, setting: s1 },
            Expr::SetOption { option: o2, setting: s2 },
        ) => {
            lemma_equiv_forgets_spans(*o1, *o2);
            lemma_equiv_forgets_spans(*s1, *s2);
        },
        (Expr::TCUClose(x), Expr::TCUClose(y)) => lemma_equiv_forgets_spans(*x, *y),
        (Expr::TCUOpen(x), Expr::TCUOpen(y)) => lemma_equiv_forgets_spans(*x, *y),
        (
            Expr::TCUTest { channel: c1, min: mn1, max: mx1, retries: r1, message: ms1 },
            Expr::TCUTest { channel: c2, min: mn2, max: mx2, retries: r2, message: ms2 },
        ) => {
            lemma_equiv_forgets_spans(*c1, *c2);
            lemma_equiv_forgets_spans(*mn1, *mn2);
            lemma_equiv_forgets_spans(*mx1, *mx2);
            lemma_equiv_forgets_spans(*r1, *r2);
            lemma_equiv_forgets_spans(*ms1, *ms2);
        },
        (Expr::PrinterSet(x), Expr::PrinterSet(y)) => lemma_equiv_forgets_spans(*x, *y),
        (
            Expr::PrinterTest { channel: c1, min: mn1, max: mx1, retries: r1, message: ms1 },
            Expr::PrinterTest { channel: c2, min: mn2, max: mx2, retries: r2, message: ms2 },
        ) => {
            lemma_equiv_forgets_spans(*c1, *c2);
            lemma_equiv_forgets_spans(*mn1, *mn2);
            lemma_equiv_forgets_spans(*mx1, *mx2);
            lemma_equiv_forgets_spans(*r1, *r2);
            lemma_equiv_forgets_spans(*ms1, *ms2);
        },
        (Expr::IssueTest(x), Expr::IssueTest(y)) => lemma_equiv_forgets_spans(*x, *y),
        (
            Expr::TestResult { min: mn1, max: mx1, message: ms1 },
            Expr::TestResult { min: mn2, max: mx2, message: ms2 },
        ) => {
            lemma_equiv_forgets_spans(*mn1, *mn2);
            lemma_equiv_forgets_spans(*mx1, *mx2);
            lemma_equiv_forgets_spans(*ms1, *ms2);
        },
        (Expr::USBPrint(xs), Expr::USBPrint(ys)) => lemma_seq_equiv_forgets_spans(xs@, ys@),
        (Expr::USBSetTimeFormat(x), Expr::USBSetTimeFormat(y)) => lemma_equiv_forgets_spans(
            *x,
            *y,
        ),
        (
            Expr::USBSetOption { option: o1, setting: s1 },
            Expr::USBSetOption { option: o2, setting: s2 },
        ) => {
            lemma_equiv_forgets_spans(*o1, *o2);
            lemma_equiv_forgets_spans(*s1, *s2);
        },
        (Expr::USBPrinterSet(x), Expr::USBPrinterSet(y)) => lemma_equiv_forgets_spans(*x, *y),
        (
            Expr::USBPrinterTest { channel: c1, min: mn1, max: mx1, retries: r1, message: ms1 },
            Expr::USBPrinterTest { channel: c2, min: mn2, max: mx2, retries: r2, message: ms2 },
        ) => {
            lemma_equiv_forgets_spans(*c1, *c2);
            lemma_equiv_forgets_spans(*mn1, *mn2);
            lemma_equiv_forgets_spans(*mx1, *mx2);
            lemma_equiv_forgets_spans(*r1, *r2);
            lemma_equiv_forgets_spans(*ms1, *ms2);
        },
        _ => {},
    }
}

proof fn lemma_seq_equiv_forgets_spans(s1: Seq<ParsedExpr>, s2: Seq<ParsedExpr>)
    requires
        pexpr_seq_equiv(s1, s2, true),
    ensures
        pexpr_seq_equiv(s1, s2, false),
    decreases s1, 3int,
{
    if s1.len() > 0 {
        lemma_equiv_forgets_spans(s1[0], s2[0]);
        lemma_seq_equiv_forgets_spans(s1.drop_first(), s2.drop_first());
    }
}

/// Span-ignoring equivalence is reflexive: every expression is equivalent
/// to itself whatever spans its nodes carry.
pub proof fn lemma_expr_equiv_reflexive(e: Expr)
    ensures
        expr_equiv(e, e, false),
    decreases e, 1int,
{
    match e {
        Expr::Comment(x) => lemma_pexpr_equiv_reflexive(*x),
        Expr::Wait(x) => lemma_pexpr_equiv_reflexive(*x),
        Expr::OpenDialog(x) => lemma_pexpr_equiv_reflexive(*x),
        Expr::WaitDialog(x) => lemma_pexpr_equiv_reflexive(*x),
        Expr::Print(xs) => lemma_seq_equiv_reflexive(xs@),
        Expr::SetTimeFormat(x) => lemma_pexpr_equiv_reflexive(*x),
        Expr::SetOption { option, setting } => {
            lemma_pexpr_equiv_reflexive(*option);
            lemma_pexpr_equiv_reflexive(*setting);
        },
        Expr::TCUClose(x) => lemma_pexpr_equiv_reflexive(*x),
        Expr::TCUOpen(x) => lemma_pexpr_equiv_reflexive(*x),
        Expr::TCUTest { channel, min, max, retries, message } => {
            lemma_pexpr_equiv_reflexive(*channel);
            lemma_pexpr_equiv_reflexive(*min);
            lemma_pexpr_equiv_reflexive(*max);
            lemma_pexpr_equiv_reflexive(*retries);
            lemma_pexpr_equiv_reflexive(*message);
        },
        Expr::PrinterSet(x) => lemma_pexpr_equiv_reflexive(*x),
        Expr::PrinterTest { channel, min, max, retries, message } => {
            lemma_pexpr_equiv_reflexive(*channel);
            lemma_pexpr_equiv_reflexive(*min);
            lemma_pexpr_equiv_reflexive(*max);
            lemma_pexpr_equiv_reflexive(*retries);
            lemma_pexpr_equiv_reflexive(*message);
        },
        Expr::IssueTest(x) => lemma_pexpr_equiv_reflexive(*x),
        Expr::TestResult { min, max, message } => {
            lemma_pexpr_equiv_reflexive(*min);
            lemma_pexpr_equiv_reflexive(*max);
            lemma_pexpr_equiv_reflexive(*message);
        },
        Expr::USBPrint(xs) => lemma_seq_equiv_reflexive(xs@),
        Expr::USBSetTimeFormat(x) => lemma_pexpr_equiv_reflexive(*x),
        Expr::USBSetOption { option, setting } => {
            lemma_pexpr_equiv_reflexive(*option);
            lemma_pexpr_equiv_reflexive(*setting);
        },
        Expr::USBPrinterSet(x) => lemma_pexpr_equiv_reflexive(*x),
        Expr::USBPrinterTest { channel, min, max, retries, message } => {
            lemma_pexpr_equiv_reflexive(*channel);
            lemma_pexpr_equiv_reflexive(*min);
            lemma_pexpr_equiv_reflexive(*max);
            lemma_pexpr_equiv_reflexive(*retries);
            lemma_pexpr_equiv_reflexive(*message);
        },
        _ => {},
    }
}

/// Span-ignoring equivalence of a node with itself.
pub proof fn lemma_pexpr_equiv_reflexive(a: ParsedExpr)
    ensures
        pexpr_equiv(a, a, false),
    decreases a, 2int,
{
    lemma_expr_equiv_reflexive(a.expr);
}

proof fn lemma_seq_equiv_reflexive(s: Seq<ParsedExpr>)
    ensures
        pexpr_seq_equiv(s, s, false),
    decreases s, 3int,
{
    if s.len() > 0 {
        lemma_pexpr_equiv_reflexive(s[0]);
        lemma_seq_equiv_reflexive(s.drop_first());
    }
}

/// Two nodes that carry one expression under different spans compare
/// equal: equality of parsed trees ignores spans.
pub proof fn lemma_eq_ignores_spans(e: Expr, s1: Span, s2: Span)
    ensures
        pexpr_equiv(ParsedExpr { expr: e, span: s1 }, ParsedExpr { expr: e, span: s2 }, false),
{
    lemma_expr_equiv_reflexive(e);
}

/// The human-readable name of an expression kind, used in diagnostics.
pub open spec fn kind_name(k: ExprKind) -> Seq<char> {
    match k {
        ExprKind::String => "String"@,
        ExprKind::UInt => "Unsigned Integer"@,
        ExprKind::ScriptComment => "Script Comment"@,
        ExprKind::HPMode => "Command: 'HPMODE'"@,
        ExprKind::Comment => "Command: 'COMMENT'"@,
        ExprKind::Wait => "Command: 'WAIT'"@,
        ExprKind::OpenDialog => "Command: 'OPENDIALOG'"@,
        ExprKind::WaitDialog => "Command: 'WAITDIALOG'"@,
        ExprKind::Flush => "Command: 'FLUSH'"@,
        ExprKind::Protocol => "Command: 'PROTOCOL'"@,
        ExprKind::Print => "Command: 'PRINT'"@,
        ExprKind::SetTimeFormat => "Command: 'SETTIMEFORMAT'"@,
        ExprKind::SetTime => "Command: 'SETTIME'"@,
        ExprKind::SetOption => "Command: 'SETOPTION'"@,
        ExprKind::TCUClose => "Command: 'TCUCLOSE'"@,
        ExprKind::TCUOpen => "Command: 'TCUOPEN'"@,
        ExprKind::TCUTest => "Command: 'TCUTEST'"@,
        ExprKind::PrinterSet => "Command: 'PRINTERSET'"@,
        ExprKind::PrinterTest => "Command: 'PRINTERTEST'"@,
        ExprKind::IssueTest => "Command: 'ISSUETEST'"@,
        ExprKind::TestResult => "Command: 'TESTRESULT'"@,
        ExprKind::USBOpen => "Command: 'USBOPEN'"@,
        ExprKind::USBClose => "Command: 'USBCLOSE'"@,
        ExprKind::USBPrint => "Command: 'USBPRINT'"@,
        ExprKind::USBSetTimeFormat => "Command: 'USBSETTIMEFORMAT'"@,
        ExprKind::USBSetTime => "Command: 'USBSETTIME'"@,
        ExprKind::USBSetOption => "Command: 'USBSETOPTION'"@,
        ExprKind::USBPrinterSet => "Command: 'USBPRINTERSET'"@,
        ExprKind::USBPrinterTest => "Command: 'USBPRINTERTEST'"@,
    }
}

impl ExprKind {
    /// A human-readable name for this kind, used in diagnostics.
    pub fn name(&self) -> (r: &'static str)
        ensures
            r@ == kind_name(*self),
    {
        match self {
            ExprKind::String => "String",
            ExprKind::UInt => "Unsigned Integer",
            ExprKind::ScriptComment => "Script Comment",
            ExprKind::HPMode => "Command: 'HPMODE'",
            ExprKind::Comment => "Command: 'COMMENT'",
            ExprKind::Wait => "Command: 'WAIT'",
            ExprKind::OpenDialog => "Command: 'OPENDIALOG'",
            ExprKind::WaitDialog => "Command: 'WAITDIALOG'",
            ExprKind::Flush => "Command: 'FLUSH'",
            ExprKind::Protocol => "Command: 'PROTOCOL'",
            ExprKind::Print => "Command: 'PRINT'",
            ExprKind::SetTimeFormat => "Command: 'SETTIMEFORMAT'",
            ExprKind::SetTime => "Command: 'SETTIME'",
            ExprKind::SetOption => "Command: 'SETOPTION'",
            ExprKind::TCUClose => "Command: 'TCUCLOSE'",
            ExprKind::TCUOpen => "Command: 'TCUOPEN'",
            ExprKind::TCUTest => "Command: 'TCUTEST'",
            ExprKind::PrinterSet => "Command: 'PRINTERSET'",
            ExprKind::PrinterTest => "Command: 'PRINTERTEST'",
            ExprKind::IssueTest => "Command: 'ISSUETEST'",
            ExprKind::TestResult => "Command: 'TESTRESULT'",
            ExprKind::USBOpen => "Command: 'USBOPEN'",
            ExprKind::USBClose => "Command: 'USBCLOSE'",
            ExprKind::USBPrint => "Command: 'USBPRINT'",
            ExprKind::USBSetTimeFormat => "Command: 'USBSETTIMEFORMAT'",
            ExprKind::USBSetTime => "Command: 'USBSETTIME'",
            ExprKind::USBSetOption => "Command: 'USBSETOPTION'",
            ExprKind::USBPrinterSet => "Command: 'USBPRINTERSET'",
            ExprKind::USBPrinterTest => "Command: 'USBPRINTERTEST'",
        }
    }
}

} // verus!
