use vstd::prelude::*;

use crate::error::{Error, ErrorReason};
use crate::syntax::expression::ParsedExpr;
use super::measurement::{
    before_cr, hex_seq_val, lemma_before_cr_subrange, measurement_parses,
    Error as MeasurementError, FailedTest, MeasurementTest,
};

verus! {

/// Device that a frontend may need to communicate with during script
/// execution.
#[derive(Clone, Copy, Debug, PartialEq, Eq, Structural)]
pub enum Device {
    TCU,
    Printer,
}

/// Describes a two way transaction between a frontend and a device: the
/// bytes to send, whether they have been sent, the response collected so
/// far, and the measurement test to run on that response, if any.
#[derive(Debug, PartialEq)]
pub struct Transaction {
    pub expression: ParsedExpr,
    pub txbytes: Vec<u8>,
    pub txcomplete: bool,
    pub device: Device,
    pub response: Vec<u8>,
    pub test: Option<MeasurementTest>,
}

/// What one round of processing left of a transaction.
#[derive(Clone, Debug, PartialEq)]
pub enum TransactionStatus {
    Success,
    Ongoing(Transaction),
}

impl Transaction {
    /// A transaction with the TCU: the command is echoed back before any
    /// measurement.
    pub fn with_tcu(expression: ParsedExpr, txbytes: Vec<u8>, test: Option<MeasurementTest>) -> (r:
        Self)
        ensures
            r == (Transaction {
                expression,
                txbytes,
                txcomplete: false,
                device: Device::TCU,
                response: r.response,
                test,
            }),
            r.response@ == Seq::<u8>::empty(),
    {
        Self {
            expression,
            txbytes,
            txcomplete: false,
            device: Device::TCU,
            response: Vec::new(),
            test,
        }
    }

    /// A transaction directly with the printer: no echo is expected.
    pub fn with_printer(
        expression: ParsedExpr,
        txbytes: Vec<u8>,
        test: Option<MeasurementTest>,
    ) -> (r: Self)
        ensures
            r == (Transaction {
                expression,
                txbytes,
                txcomplete: false,
                device: Device::Printer,
                response: r.response,
                test,
            }),
            r.response@ == Seq::<u8>::empty(),
    {
        Self {
            expression,
            txbytes,
            txcomplete: false,
            device: Device::Printer,
            response: Vec::new(),
            test,
        }
    }

    /// The bytes this transaction sends.
    pub fn bytes(&self) -> (r: &Vec<u8>)
        ensures
            r == &self.txbytes,
    {
        &self.txbytes
    }

    /// Whether the device echoes the command back.
    pub open spec fn echo_expected(self) -> bool {
        self.device is TCU
    }

    /// How many carriage-return-terminated parts the response must reach
    /// before it can be evaluated.
    pub open spec fn expected_endings(self) -> int {
        (if self.echo_expected() {
            1int
        } else {
            0int
        }) + (if self.test is Some {
            1int
        } else {
            0int
        })
    }

    /// How many more sends this transaction may perform: one if the bytes
    /// still await sending, and one per remaining retry.
    pub open spec fn send_budget(self) -> int {
        (if self.txcomplete {
            0int
        } else {
            1int
        }) + (match self.test {
            Some(t) => t.retries as int,
            None => 0int,
        })
    }
}

/// The parts of a byte sequence split after every carriage return; a
/// trailing part without one is kept.
pub open spec fn split_after_cr(s: Seq<u8>) -> Seq<Seq<u8>>
    decreases s.len(),
{
    if s.len() == 0 {
        Seq::empty()
    } else {
        let p = before_cr(s);
        if p.len() >= s.len() {
            seq![p]
        } else {
            seq![p.push(13)] + split_after_cr(s.skip(p.len() as int + 1))
        }
    }
}

/// The prefix before the first carriage return is never longer than the
/// sequence, and as long only when there is no carriage return at all.
pub(crate) proof fn lemma_before_cr_len(s: Seq<u8>)
    ensures
        before_cr(s).len() <= s.len(),
        before_cr(s).len() == s.len() ==> forall|j: int| 0 <= j < s.len() ==> s[j] != 13,
    decreases s.len(),
{
    if s.len() > 0 && s[0] != 13 {
        lemma_before_cr_len(s.drop_first());
        if before_cr(s).len() == s.len() {
            assert forall|j: int| 0 <= j < s.len() implies s[j] != 13 by {
                if j > 0 {
                    assert(s.drop_first()[j - 1] == s[j]);
                }
            }
        }
    }
}

/// A sequence without a carriage return is its own prefix before one.
proof fn lemma_before_cr_whole(p: Seq<u8>)
    requires
        forall|j: int| 0 <= j < p.len() ==> p[j] != 13,
    ensures
        before_cr(p) =~= p,
    decreases p.len(),
{
    if p.len() > 0 {
        assert(forall|j: int| 0 <= j < p.drop_first().len() ==> p.drop_first()[j] == p[j + 1]);
        lemma_before_cr_whole(p.drop_first());
    }
}

/// The first part of a split has the same digits before its carriage
/// return as the whole sequence.
proof fn lemma_first_part_prefix(s: Seq<u8>)
    requires
        s.len() > 0,
    ensures
        before_cr(split_after_cr(s)[0]) =~= before_cr(s),
{
    lemma_before_cr_len(s);
    let p = before_cr(s);
    let ghost n = p.len() as int;
    lemma_before_cr_is_cr_free(s);
    if p.len() == s.len() {
        lemma_before_cr_whole(p);
    } else {
        lemma_before_cr_subrange(p.push(13), n);
        assert(p.push(13).subrange(0, n) =~= p);
    }
}

/// The bytes before the first carriage return contain none themselves.
proof fn lemma_before_cr_is_cr_free(s: Seq<u8>)
    ensures
        forall|j: int| 0 <= j < before_cr(s).len() ==> before_cr(s)[j] != 13,
    decreases s.len(),
{
    if s.len() > 0 && s[0] != 13 {
        lemma_before_cr_is_cr_free(s.drop_first());
        assert forall|j: int| 0 <= j < before_cr(s).len() implies before_cr(s)[j] != 13 by {
            if j > 0 {
                assert(before_cr(s)[j] == before_cr(s.drop_first())[j - 1]);
            }
        }
    }
}

/// One report of an error of the byte exchange, tagged to the expression.
pub open spec fn is_io_error(
    r: Result<TransactionStatus, Error>,
    expression: ParsedExpr,
    detail: Seq<char>,
) -> bool {
    &&& r matches Err(e)
    &&& e.reason matches ErrorReason::IOError { expression: x, detail: d } && x == expression
        && d@ == detail
    &&& e.notes@.len() == 0
}

/// What evaluating the collected response leaves of the transaction `t`:
/// too few complete parts keep it ongoing; a wrong echo or an unreadable
/// measurement end it with an exchange error; a measurement out of range
/// spends a retry and schedules a resend, or fails for good when no
/// retries remain; everything else is success.
pub open spec fn response_step(t: Transaction, r: Result<TransactionStatus, Error>) -> bool {
    let s = t.response@;
    let parts = split_after_cr(s);
    if t.expected_endings() == 0 {
        r == Ok::<TransactionStatus, Error>(TransactionStatus::Success)
    } else if parts.len() < t.expected_endings() {
        r matches Ok(TransactionStatus::Ongoing(t2)) && t2 == t
    } else if t.echo_expected() && parts[0] != t.txbytes@ {
        is_io_error(r, t.expression, "Command echo incorrect"@)
    } else {
        match t.test {
            None => r == Ok::<TransactionStatus, Error>(TransactionStatus::Success),
            Some(test) => {
                let m = if t.echo_expected() {
                    parts[1]
                } else {
                    parts[0]
                };
                if !measurement_parses(m) {
                    is_io_error(r, t.expression, "Measurement parse error"@)
                } else {
                    let measured = hex_seq_val(before_cr(m)) as u32;
                    if test.in_range(measured) {
                        r == Ok::<TransactionStatus, Error>(TransactionStatus::Success)
                    } else if test.retries > 0 {
                        r matches Ok(TransactionStatus::Ongoing(t2)) && t2 == (Transaction {
                            txcomplete: false,
                            test: Some(
                                MeasurementTest {
                                    expected_min: test.expected_min,
                                    expected_max: test.expected_max,
                                    retries: (test.retries - 1) as u32,
                                    failure_message: test.failure_message,
                                },
                            ),
                            ..t
                        })
                    } else {
                        &&& r matches Err(e)
                        &&& e.reason == (ErrorReason::TestFailure {
                            expression: t.expression,
                            test: (FailedTest {
                                measurement: measured,
                                expected_min: test.expected_min,
                                expected_max: test.expected_max,
                                message: test.failure_message,
                            }),
                        })
                        &&& e.notes@.len() == 0
                    }
                }
            },
        }
    }
}

/// Copy a range of a byte vector.
pub(crate) fn subvec(v: &Vec<u8>, from: usize, to: usize) -> (r: Vec<u8>)
    requires
        from <= to <= v@.len(),
    ensures
        r@ == v@.subrange(from as int, to as int),
{
    let mut r: Vec<u8> = Vec::new();
    let mut i: usize = from;
    while i < to
        invariant
            from <= i <= to <= v@.len(),
            r@ =~= v@.subrange(from as int, i as int),
        decreases to - i,
    {
        r.push(v[i]);
        proof {
            assert(r@ =~= v@.subrange(from as int, i as int + 1));
        }
        i += 1;
    }
    proof {
        assert(r@ =~= v@.subrange(from as int, to as int));
    }
    r
}

/// Whether two byte vectors hold exactly the same bytes.
fn bytes_eq(a: &Vec<u8>, b: &Vec<u8>) -> (r: bool)
    ensures
        r == (a@ == b@),
{
    if a.len() != b.len() {
        proof {
            assert(a@.len() != b@.len());
        }
        return false;
    }
    let mut i: usize = 0;
    while i < a.len()
        invariant
            0 <= i <= a@.len(),
            a@.len() == b@.len(),
            forall|j: int| 0 <= j < i ==> a@[j] == b@[j],
        decreases a@.len() - i,
    {
        if a[i] != b[i] {
            proof {
                assert(a@ != b@);
            }
            return false;
        }
        i += 1;
    }
    proof {
        assert(a@ =~= b@);
    }
    true
}

/// Relies on std::io::Write::write_all: writes the whole buffer or fails
/// with an error, whose text the result carries.
#[verifier::external_body]
fn write_all_port<T: std::io::Write>(port: &mut T, bytes: &Vec<u8>) -> (r: Result<(), String>) {
    match port.write_all(bytes) {
        Ok(()) => Ok(()),
        Err(e) => Err(e.to_string()),
    }
}

/// Relies on std::io::Read::read_to_end: reads whatever bytes are
/// available until the end of the input; a timeout ends the read and
/// leaves the bytes that came before it.
#[verifier::external_body]
fn read_available_port<T: std::io::Read>(port: &mut T) -> (r: Result<Vec<u8>, String>) {
    let mut buffer = Vec::new();
    match port.read_to_end(&mut buffer) {
        Ok(_) => Ok(buffer),
        Err(e) if e.kind() == std::io::ErrorKind::TimedOut => Ok(buffer),
        Err(e) => Err(e.to_string()),
    }
}

impl Clone for Transaction {
    /// A copy with the same bytes, state and test; the expression tree is
    /// copied spans included.
    fn clone(&self) -> (res: Self)
        ensures
            crate::syntax::expression::pexpr_equiv(res.expression, self.expression, true),
            res.txbytes@ == self.txbytes@,
            res.txcomplete == self.txcomplete,
            res.device == self.device,
            res.response@ == self.response@,
            res.test == self.test,
    {
        Transaction {
            expression: self.expression.clone(),
            txbytes: subvec(&self.txbytes, 0, self.txbytes.len()),
            txcomplete: self.txcomplete,
            device: self.device,
            response: subvec(&self.response, 0, self.response.len()),
            test: match &self.test {
                None => None,
                Some(t) => Some(t.clone()),
            },
        }
    }
}

/// A later round of the same transaction: every field unchanged, except
/// that more response bytes may have arrived after the ones already held.
pub open spec fn received_more(t0: Transaction, t1: Transaction) -> bool {
    &&& t1.expression == t0.expression
    &&& t1.txbytes == t0.txbytes
    &&& t1.txcomplete == t0.txcomplete
    &&& t1.device == t0.device
    &&& t1.test == t0.test
    &&& t1.response@.len() >= t0.response@.len()
    &&& t1.response@.take(t0.response@.len() as int) == t0.response@
}

impl Transaction {
    /// Evaluate the response collected so far, exactly as `response_step`
    /// describes. A transaction that stays ongoing keeps its response
    /// bytes and never gains send budget.
    fn evaluate_response(self) -> (r: Result<TransactionStatus, Error>)
        requires
            self.txcomplete,
        ensures
            response_step(self, r),
            r matches Ok(TransactionStatus::Ongoing(t2)) ==> t2.response@ == self.response@
                && t2.send_budget() <= self.send_budget(),
    {
        let ghost t0 = self;
        let ghost s = self.response@;
        let ghost parts = split_after_cr(s);
        let Transaction { expression, txbytes, txcomplete, device, response, test } = self;
        let echo_expected = match device {
            Device::TCU => true,
            Device::Printer => false,
        };
        let expected_endings: usize = (if echo_expected {
            1usize
        } else {
            0usize
        }) + (match &test {
            Some(_) => 1usize,
            None => 0usize,
        });

        // No response expected.
        if expected_endings == 0 {
            return Ok(TransactionStatus::Success);
        }
        // Find where the first part ends: after the first carriage return,
        // or at the end of the response while none has arrived yet.
        let mut c1: usize = 0;
        while c1 < response.len() && response[c1] != 13
            invariant
                0 <= c1 <= response@.len(),
                forall|j: int| 0 <= j < c1 ==> response@[j] != 13,
            decreases response@.len() - c1,
        {
            c1 += 1;
        }
        let has_cr = c1 < response.len();
        proof {
            lemma_before_cr_subrange(s, c1 as int);
            lemma_before_cr_len(s);
        }
        let part1_end = if has_cr {
            c1 + 1
        } else {
            response.len()
        };
        // How many complete parts arrived, counted no further than the two
        // that can matter.
        let second_exists = has_cr && c1 + 1 < response.len();
        let parts_now: usize = if response.len() == 0 {
            0
        } else if !has_cr {
            1
        } else if second_exists {
            2
        } else {
            1
        };
        proof {
            if s.len() > 0 {
                if !has_cr {
                    assert(parts =~= seq![before_cr(s)]);
                } else {
                    assert(before_cr(s).len() == c1 as int);
                    if second_exists {
                        assert(s.skip(c1 as int + 1).len() > 0);
                        assert(split_after_cr(s.skip(c1 as int + 1)).len() >= 1);
                        assert(parts.len() >= 2);
                    } else {
                        assert(s.skip(c1 as int + 1).len() == 0);
                        assert(split_after_cr(s.skip(c1 as int + 1)) =~= Seq::<Seq<u8>>::empty());
                        assert(parts =~= seq![before_cr(s).push(13)]);
                    }
                }
            }
        }

        // Incomplete response.
        if parts_now < expected_endings {
            return Ok(
                TransactionStatus::Ongoing(
                    Transaction { expression, txbytes, txcomplete, device, response, test },
                ),
            );
        }

        // Validate the echo.
        if echo_expected {
            proof {
                if has_cr {
                    assert(parts[0] == before_cr(s).push(13));
                }
                assert(parts[0] =~= s.subrange(0, part1_end as int));
            }
            let echo = subvec(&response, 0, part1_end);
            if !bytes_eq(&echo, &txbytes) {
                return Err(
                    Error::from_io_error(expression, String::from_str("Command echo incorrect")),
                );
            }
        }

        // Test the measurement.
        let the_test = match test {
            None => {
                return Ok(TransactionStatus::Success);
            },
            Some(the_test) => the_test,
        };
        let m_start: usize = if echo_expected {
            c1 + 1
        } else {
            0
        };
        let ghost m_part = if t0.echo_expected() {
            parts[1]
        } else {
            parts[0]
        };
        proof {
            if t0.echo_expected() {
                assert(parts[1] == split_after_cr(s.skip(c1 as int + 1))[0]);
                lemma_first_part_prefix(s.skip(c1 as int + 1));
                assert(s.skip(c1 as int + 1) =~= s.subrange(m_start as int, s.len() as int));
            } else {
                lemma_first_part_prefix(s);
                assert(s.subrange(m_start as int, s.len() as int) =~= s);
            }
            assert(before_cr(m_part) =~= before_cr(s.subrange(m_start as int, s.len() as int)));
        }
        let m_bytes = subvec(&response, m_start, response.len());
        match the_test.evaluate(m_bytes.as_slice()) {
            Ok(None) => Ok(TransactionStatus::Success),
            Ok(Some(retry)) => Ok(
                TransactionStatus::Ongoing(
                    Transaction {
                        expression,
                        txbytes,
                        txcomplete: false,
                        device,
                        response,
                        test: Some(retry),
                    },
                ),
            ),
            Err(MeasurementError::TestFailed(failed)) => Err(
                Error::from_failed_test(expression, failed),
            ),
            Err(_) => Err(
                Error::from_io_error(expression, String::from_str("Measurement parse error")),
            ),
        }
    }

    /// Drive the transaction one round: send the bytes if they have not
    /// been sent, otherwise read what arrived and evaluate the response as
    /// `response_step` describes. The response only ever grows, and a
    /// round never gains send budget; the sending round spends one send,
    /// so a transaction with `n` retries sends at most `n + 1` times.
    pub fn process<T: std::io::Read + std::io::Write>(self, port: &mut T) -> (r: Result<
        TransactionStatus,
        Error,
    >)
        ensures
            r matches Err(e) ==> (!(e.reason matches ErrorReason::IOError { .. }) ==> exists|
                t1: Transaction,
            |
                #[trigger] received_more(self, t1) && response_step(t1, r)),
            r matches Err(e) ==> (e.reason matches ErrorReason::IOError { expression: x, .. }
                ==> x == self.expression),
            !self.txcomplete ==> (r matches Ok(TransactionStatus::Success) ==> self.device
                is Printer && self.test is None),
            !self.txcomplete ==> (r matches Ok(TransactionStatus::Ongoing(t2)) ==> t2
                == (Transaction { txcomplete: true, ..self }) && !(self.device is Printer
                && self.test is None)),
            self.txcomplete ==> (r is Ok ==> exists|t1: Transaction|
                #[trigger] received_more(self, t1) && response_step(t1, r)),
            r matches Ok(TransactionStatus::Ongoing(t2)) ==> t2.send_budget()
                <= self.send_budget() && (self.txcomplete ==> t2.send_budget()
                < self.send_budget() + 1 && t2.response@.len() >= self.response@.len()
                && t2.response@.take(self.response@.len() as int) == self.response@),
            !self.txcomplete ==> (r matches Ok(TransactionStatus::Ongoing(t2))
                ==> t2.send_budget() == self.send_budget() - 1),
    {
        let ghost t_in = self;
        let mut this = self;

        // Send the bytes if that has not happened yet.
        if !this.txcomplete {
            match write_all_port(port, &this.txbytes) {
                Ok(()) => {},
                Err(detail) => {
                    return Err(Error::from_io_error(this.expression, detail));
                },
            }
            this.txcomplete = true;
            let printer_only = match this.device {
                Device::Printer => true,
                Device::TCU => false,
            };
            let no_test = match &this.test {
                None => true,
                Some(_) => false,
            };
            if printer_only && no_test {
                return Ok(TransactionStatus::Success);
            } else {
                return Ok(TransactionStatus::Ongoing(this));
            }
        }

        // Collect whatever the device sent so far.
        let received = match read_available_port(port) {
            Ok(received) => received,
            Err(detail) => {
                return Err(Error::from_io_error(this.expression, detail));
            },
        };
        let ghost before = this.response@;
        let mut i: usize = 0;
        while i < received.len()
            invariant
                0 <= i <= received@.len(),
                this.response@ == before + received@.take(i as int),
                this == (Transaction { response: this.response, ..t_in }),
                before == t_in.response@,
            decreases received@.len() - i,
        {
            this.response.push(received[i]);
            proof {
                assert(this.response@ =~= before + received@.take(i as int + 1));
            }
            i += 1;
        }
        proof {
            assert(received@.take(received@.len() as int) =~= received@);
            assert(this.response@.take(before.len() as int) =~= before);
            assert(received_more(t_in, this));
        }
        let ghost t1 = this;
        let r = this.evaluate_response();
        proof {
            assert(received_more(t_in, t1) && response_step(t1, r));
        }
        r
    }
}

} // verus!
