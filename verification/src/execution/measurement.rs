use vstd::prelude::*;

verus! {

/// A measurement returned from either the TCU or the printer's debug
/// protocol.
#[derive(Clone, Copy, Debug, PartialEq, Eq, Structural)]
pub struct Measurement(pub u32);

/// A test to be performed on a measurement taken by a device. The
/// measurement must lie in the inclusive range from `expected_min` to
/// `expected_max`; `retries` more attempts are allowed after a failure.
#[derive(Debug, PartialEq)]
pub struct MeasurementTest {
    pub expected_min: u32,
    pub expected_max: u32,
    pub retries: u32,
    pub failure_message: String,
}

/// The outcome of a test that failed with no retries left.
#[derive(Debug, PartialEq)]
pub struct FailedTest {
    pub measurement: u32,
    pub expected_min: u32,
    pub expected_max: u32,
    pub message: String,
}

impl Clone for MeasurementTest {
    /// An exact copy.
    fn clone(&self) -> (res: Self)
        ensures
            res == *self,
    {
        MeasurementTest {
            expected_min: self.expected_min,
            expected_max: self.expected_max,
            retries: self.retries,
            failure_message: self.failure_message.clone(),
        }
    }
}

impl Clone for FailedTest {
    /// An exact copy.
    fn clone(&self) -> (res: Self)
        ensures
            res == *self,
    {
        FailedTest {
            measurement: self.measurement,
            expected_min: self.expected_min,
            expected_max: self.expected_max,
            message: self.message.clone(),
        }
    }
}

/// A failure while testing a measurement.
#[derive(Clone, Debug, PartialEq)]
pub enum Error {
    TestFailed(FailedTest),
    TestFailedRetryable(MeasurementTest),
    /// Parsing of a measurement failed.
    ParseError,
}

/// Whether a byte is an ASCII hexadecimal digit.
pub open spec fn is_hex_digit(b: u8) -> bool {
    (0x30 <= b <= 0x39) || (0x41 <= b <= 0x46) || (0x61 <= b <= 0x66)
}

/// The value of an ASCII hexadecimal digit.
pub open spec fn hex_digit_val(b: u8) -> nat
    recommends
        is_hex_digit(b),
{
    if 0x30 <= b <= 0x39 {
        (b - 0x30) as nat
    } else if 0x41 <= b <= 0x46 {
        (b - 0x41 + 10) as nat
    } else if 0x61 <= b <= 0x66 {
        (b - 0x61 + 10) as nat
    } else {
        0
    }
}

/// The value of a sequence of ASCII hexadecimal digits, most significant
/// digit first.
pub open spec fn hex_seq_val(s: Seq<u8>) -> nat
    decreases s.len(),
{
    if s.len() == 0 {
        0
    } else {
        hex_seq_val(s.drop_last()) * 16 + hex_digit_val(s.last())
    }
}

/// The prefix of a byte sequence up to, not including, the first carriage
/// return.
pub open spec fn before_cr(s: Seq<u8>) -> Seq<u8>
    decreases s.len(),
{
    if s.len() == 0 {
        Seq::empty()
    } else if s[0] == 13 {
        Seq::empty()
    } else {
        seq![s[0]] + before_cr(s.drop_first())
    }
}

/// A byte sequence parses as a measurement when the part before the first
/// carriage return is non-empty, all hexadecimal digits, and fits in 32
/// bits.
pub open spec fn measurement_parses(s: Seq<u8>) -> bool {
    let p = before_cr(s);
    p.len() > 0 && (forall|i: int| 0 <= i < p.len() ==> is_hex_digit(#[trigger] p[i]))
        && hex_seq_val(p) <= u32::MAX
}

/// When the first `n` bytes are not carriage returns and position `n` ends
/// the sequence or holds one, the prefix before the carriage return is
/// exactly those `n` bytes.
pub(crate) proof fn lemma_before_cr_subrange(s: Seq<u8>, n: int)
    requires
        0 <= n <= s.len(),
        forall|j: int| 0 <= j < n ==> s[j] != 13,
        n == s.len() || s[n] == 13,
    ensures
        before_cr(s) =~= s.subrange(0, n),
    decreases n,
{
    if n == 0 {
    } else {
        assert(s[0] != 13);
        let t = s.drop_first();
        assert(forall|j: int| 0 <= j < n - 1 ==> t[j] == s[j + 1] && s[j + 1] != 13);
        assert(n - 1 == t.len() || t[n - 1] == 13);
        lemma_before_cr_subrange(t, n - 1);
        assert(before_cr(s) =~= seq![s[0]] + t.subrange(0, n - 1));
    }
}

/// Reading one more digit multiplies the prefix value by sixteen and adds
/// the digit.
proof fn lemma_hex_take_step(p: Seq<u8>, k: int)
    requires
        0 <= k < p.len(),
    ensures
        hex_seq_val(p.take(k + 1)) == hex_seq_val(p.take(k)) * 16 + hex_digit_val(p[k]),
{
    assert(p.take(k + 1).drop_last() =~= p.take(k));
    assert(p.take(k + 1).last() == p[k]);
}

/// The value of a prefix of a digit string never exceeds the value of the
/// whole string.
pub(crate) proof fn lemma_hex_prefix_le(p: Seq<u8>, k: int)
    requires
        0 <= k <= p.len(),
    ensures
        hex_seq_val(p.take(k)) <= hex_seq_val(p),
    decreases p.len() - k,
{
    if k == p.len() {
        assert(p.take(k) =~= p);
    } else {
        lemma_hex_take_step(p, k);
        lemma_hex_prefix_le(p, k + 1);
    }
}

impl Measurement {
    /// Parse a measurement from the bytes up to the first carriage return,
    /// read as ASCII hexadecimal digits.
    pub fn try_from_bytes(bytes: &[u8]) -> (r: Result<Measurement, Error>)
        ensures
            measurement_parses(bytes@) ==> r == Ok::<Measurement, Error>(
                Measurement(hex_seq_val(before_cr(bytes@)) as u32),
            ),
            !measurement_parses(bytes@) ==> r == Err::<Measurement, Error>(Error::ParseError),
    {
        // Find the end of the measurement digits: the first carriage return
        // or the end of the input.
        let mut n: usize = 0;
        while n < bytes.len() && bytes[n] != 13
            invariant
                0 <= n <= bytes@.len(),
                forall|j: int| 0 <= j < n ==> bytes@[j] != 13,
            decreases bytes@.len() - n,
        {
            n += 1;
        }
        proof {
            lemma_before_cr_subrange(bytes@, n as int);
        }
        let ghost p = before_cr(bytes@);
        if n == 0 {
            return Err(Error::ParseError);
        }
        let mut value: u32 = 0;
        let mut k: usize = 0;
        while k < n
            invariant
                0 < n <= bytes@.len(),
                0 <= k <= n,
                p == before_cr(bytes@),
                p =~= bytes@.subrange(0, n as int),
                forall|j: int| 0 <= j < k ==> is_hex_digit(#[trigger] p[j]),
                value as nat == hex_seq_val(p.take(k as int)),
            decreases n - k,
        {
            let b = bytes[k];
            let hex = (0x30 <= b && b <= 0x39) || (0x41 <= b && b <= 0x46) || (0x61 <= b && b
                <= 0x66);
            if !hex {
                // A byte that is not a hexadecimal digit: the measurement
                // does not parse.
                proof {
                    assert(p[k as int] == bytes@[k as int]);
                    assert(!is_hex_digit(before_cr(bytes@)[k as int]));
                    assert(!measurement_parses(bytes@));
                }
                return Err(Error::ParseError);
            }
            let d: u8 = if b <= 0x39 {
                b - 0x30
            } else if b <= 0x46 {
                b - 0x41 + 10
            } else {
                b - 0x61 + 10
            };
            if value >= 0x1000_0000 {
                // One more digit would overflow 32 bits, so the value of
                // the whole digit string cannot fit either.
                proof {
                    lemma_hex_take_step(p, k as int);
                    assert(hex_seq_val(p.take(k as int)) >= 0x1000_0000);
                    assert(hex_seq_val(p.take(k as int + 1)) >= 0x1000_0000 * 16) by {
                        assert(hex_seq_val(p.take(k as int)) * 16 >= 0x1000_0000 * 16);
                    }
                    lemma_hex_prefix_le(p, k as int + 1);
                    assert(hex_seq_val(before_cr(bytes@)) > u32::MAX);
                    assert(!measurement_parses(bytes@));
                }
                return Err(Error::ParseError);
            }
            proof {
                lemma_hex_take_step(p, k as int);
            }
            value = value * 16 + (d as u32);
            k += 1;
        }
        proof {
            assert(p.take(n as int) =~= p);
        }
        Ok(Measurement(value))
    }
}

impl FailedTest {
    /// Record the final failure of a test against the measurement that
    /// violated it.
    pub fn from_test_and_measurement(test: MeasurementTest, measurement: Measurement) -> (r: Self)
        ensures
            r == (FailedTest {
                measurement: measurement.0,
                expected_min: test.expected_min,
                expected_max: test.expected_max,
                message: test.failure_message,
            }),
    {
        Self {
            measurement: measurement.0,
            expected_min: test.expected_min,
            expected_max: test.expected_max,
            message: test.failure_message,
        }
    }
}

impl MeasurementTest {
    /// Whether a measured value lies in the expected range.
    pub open spec fn in_range(self, value: u32) -> bool {
        self.expected_min <= value <= self.expected_max
    }

    /// Test a measurement: success when it lies in the expected range; a
    /// retryable failure, with one retry spent, while retries remain; the
    /// final failure otherwise.
    pub fn test(self, measurement: Measurement) -> (r: Result<(), Error>)
        ensures
            self.in_range(measurement.0) ==> r == Ok::<(), Error>(()),
            !self.in_range(measurement.0) && self.retries > 0 ==> r == Err::<(), Error>(
                Error::TestFailedRetryable(
                    MeasurementTest {
                        expected_min: self.expected_min,
                        expected_max: self.expected_max,
                        retries: (self.retries - 1) as u32,
                        failure_message: self.failure_message,
                    },
                ),
            ),
            !self.in_range(measurement.0) && self.retries == 0 ==> r == Err::<(), Error>(
                Error::TestFailed(
                    FailedTest {
                        measurement: measurement.0,
                        expected_min: self.expected_min,
                        expected_max: self.expected_max,
                        message: self.failure_message,
                    },
                ),
            ),
    {
        let mut this = self;
        let Measurement(value) = measurement;
        let test_success = this.expected_min <= value && value <= this.expected_max;
        if !test_success {
            if this.retries > 0 {
                this.retries = this.retries - 1;
                return Err(Error::TestFailedRetryable(this));
            } else {
                return Err(Error::TestFailed(FailedTest::from_test_and_measurement(
                    this,
                    measurement,
                )));
            }
        }
        Ok(())
    }

    /// Evaluate a raw measurement, made up of hexadecimal digits; only
    /// bytes up to the first carriage return are read. Returns `Ok(None)`
    /// when the measurement passes the test, `Ok(Some(test))` when it fails
    /// but the test should be retried, and an error when it fails for good
    /// or cannot be parsed.
    pub fn evaluate(self, measurement: &[u8]) -> (r: Result<Option<Self>, Error>)
        ensures
            !measurement_parses(measurement@) ==> r == Err::<Option<MeasurementTest>, Error>(
                Error::ParseError,
            ),
            measurement_parses(measurement@) && self.in_range(
                hex_seq_val(before_cr(measurement@)) as u32,
            ) ==> r == Ok::<Option<MeasurementTest>, Error>(None),
            measurement_parses(measurement@) && !self.in_range(
                hex_seq_val(before_cr(measurement@)) as u32,
            ) && self.retries > 0 ==> r == Ok::<Option<MeasurementTest>, Error>(
                Some(
                    MeasurementTest {
                        expected_min: self.expected_min,
                        expected_max: self.expected_max,
                        retries: (self.retries - 1) as u32,
                        failure_message: self.failure_message,
                    },
                ),
            ),
            measurement_parses(measurement@) && !self.in_range(
                hex_seq_val(before_cr(measurement@)) as u32,
            ) && self.retries == 0 ==> r == Err::<Option<MeasurementTest>, Error>(
                Error::TestFailed(
                    FailedTest {
                        measurement: hex_seq_val(before_cr(measurement@)) as u32,
                        expected_min: self.expected_min,
                        expected_max: self.expected_max,
                        message: self.failure_message,
                    },
                ),
            ),
    {
        let parsed = Measurement::try_from_bytes(measurement)?;
        match self.test(parsed) {
            Ok(()) => Ok(None),
            Err(Error::TestFailedRetryable(test)) => Ok(Some(test)),
            Err(error) => Err(error),
        }
    }
}

} // verus!
