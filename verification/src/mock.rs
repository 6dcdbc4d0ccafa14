use vstd::prelude::*;

use crate::execution::measurement::{hex_seq_val, is_hex_digit, lemma_hex_prefix_le};
use crate::execution::transaction::subvec;
use crate::syntax::evaluate::fmt2;

verus! {

/// A stand-in for the TCU on its serial link: bytes written to it gather
/// in `pending`, and once a full command has arrived its echo and its
/// reply gather in `replies`, ready to be read back.
#[derive(Clone, Debug, PartialEq, Eq)]
pub struct MockTCUPort {
    pub pending: Vec<u8>,
    pub replies: Vec<u8>,
}

/// The fixed reading the mock reports on a TCU measurement channel.
pub open spec fn mock_tcu_channel_value(channel: nat) -> Option<u16> {
    if channel == 0x00 {
        Some(100u16)  // battery current
    } else if channel == 0x01 {
        Some(100u16)  // charger current
    } else if channel == 0x02 {
        Some(1u16)  // cts level
    } else if channel == 0x03 {
        Some(5000u16)  // vbatt
    } else if channel == 0x04 {
        Some(100u16)  // vdrop over 100 ms
    } else if channel == 0x05 {
        Some(200u16)  // vdrop over 500 ms
    } else if channel == 0x06 {
        Some(300u16)  // vdrop over 2 s
    } else if channel == 0x07 {
        Some(400u16)  // vdrop over 5 s
    } else if channel == 0x08 {
        Some(41u16)  // tcu software version
    } else if channel == 0x09 {
        Some(5000u16)  // vref
    } else if channel == 0x0A {
        Some(5000u16)  // battery voltage, internal
    } else if channel == 0x0B {
        Some(5000u16)  // charger voltage, internal
    } else if channel == 0x10 {
        Some(0u16)  // BT address, high
    } else if channel == 0x11 {
        Some(0u16)  // BT address, mid
    } else if channel == 0x12 {
        Some(0u16)  // BT address, low
    } else if channel == 0x13 {
        Some(1u16)  // BT address ready
    } else if channel == 0x14 {
        Some(1u16)  // BT connect, no pin
    } else if channel == 0x15 {
        Some(1u16)  // BT connect, pin 1234
    } else if channel == 0x16 {
        Some(1u16)  // BT connect, pin 4254
    } else {
        None
    }
}

/// The fixed reading the mock reports on a printer measurement channel.
pub open spec fn mock_printer_channel_value(channel: nat) -> Option<u16> {
    if channel == 0 {
        Some(5000u16)  // battery voltage
    } else if channel == 1 {
        Some(5000u16)  // charger voltage
    } else if channel == 2 {
        Some(5000u16)  // vcc voltage
    } else if channel == 3 {
        Some(5000u16)  // mech voltage
    } else if channel == 4 {
        Some(25u16)  // head temperature
    } else if channel == 5 {
        Some(0x40u16)  // paper sensor
    } else if channel == 6 {
        Some(1u16)  // wake signal
    } else if channel == 10 {
        Some(0u16)  // rtc present
    } else if channel == 7 || channel == 8 || channel == 9 || (11 <= channel && channel <= 19) || (
    32 <= channel && channel <= 63) {
        Some(0u16)
    } else {
        None
    }
}

/// A measurement as the TCU frames it: four uppercase hex digits and a
/// carriage return.
pub open spec fn fmt4_cr(m: u16) -> Seq<u8> {
    fmt2((m / 256) as u8) + fmt2((m % 256) as u8) + seq![0x0Du8]
}

/// A sequence of ASCII hexadecimal digits standing for one byte.
pub open spec fn hex_byte_text(s: Seq<u8>) -> bool {
    s.len() >= 1 && (forall|i: int| 0 <= i < s.len() ==> is_hex_digit(#[trigger] s[i]))
        && hex_seq_val(s) <= 255
}

/// The reply the mock sends to one complete command, carriage return
/// included; nothing for the commands it only acknowledges by echo, and
/// none at all when it does not understand the command.
pub open spec fn mock_tcu_reply(cmd: Seq<u8>) -> Option<Seq<u8>> {
    if cmd.len() < 2 {
        None
    } else if cmd[0] == 0x50 || cmd[0] == 0x43 || cmd[0] == 0x4F {
        // Print, close relay, open relay: echo only.
        Some(Seq::empty())
    } else if cmd[0] == 0x4D {
        // Measure: the channel is every byte between 'M' and the carriage
        // return.
        let digits = cmd.subrange(1, cmd.len() - 1);
        if hex_byte_text(digits) {
            match mock_tcu_channel_value(hex_seq_val(digits)) {
                Some(m) => Some(fmt4_cr(m)),
                None => None,
            }
        } else {
            None
        }
    } else if cmd[0] == 0x57 && cmd.len() >= 4 {
        // Measure from the printer: the channel is the last two bytes
        // before the carriage return.
        let digits = cmd.subrange(cmd.len() - 3, cmd.len() - 1);
        if hex_byte_text(digits) {
            match mock_printer_channel_value(hex_seq_val(digits)) {
                Some(m) => Some(fmt4_cr(m)),
                None => None,
            }
        } else {
            None
        }
    } else {
        None
    }
}

/// Decode one byte written as ASCII hexadecimal digits.
pub fn tcu_decode_byte(bytes: &[u8]) -> (r: u8)
    requires
        hex_byte_text(bytes@),
    ensures
        r == hex_seq_val(bytes@),
{
    let mut value: u32 = 0;
    let mut i: usize = 0;
    while i < bytes.len()
        invariant
            hex_byte_text(bytes@),
            0 <= i <= bytes@.len(),
            value == hex_seq_val(bytes@.take(i as int)),
            value <= 255,
        decreases bytes@.len() - i,
    {
        let b = bytes[i];
        let d: u8 = if 0x30 <= b && b <= 0x39 {
            b - 0x30
        } else if 0x41 <= b && b <= 0x46 {
            b - 0x41 + 10
        } else {
            b - 0x61 + 10
        };
        proof {
            lemma_hex_prefix_le(bytes@, i as int + 1);
            assert(bytes@.take(i as int + 1).drop_last() =~= bytes@.take(i as int));
            assert(bytes@.take(i as int + 1).last() == bytes@[i as int]);
        }
        value = value * 16 + d as u32;
        i += 1;
    }
    proof {
        assert(bytes@.take(bytes@.len() as int) =~= bytes@);
    }
    value as u8
}

/// Frame a measurement the way the TCU reports it: four uppercase hex
/// digits and a carriage return.
pub fn tcu_format_measurement(measurement: u16) -> (r: Vec<u8>)
    ensures
        r@ == fmt4_cr(measurement),
{
    let hi: u8 = (measurement / 256) as u8;
    let lo: u8 = (measurement % 256) as u8;
    let mut r: Vec<u8> = Vec::new();
    crate::syntax::evaluate::push_fmt2(&mut r, hi);
    crate::syntax::evaluate::push_fmt2(&mut r, lo);
    r.push(0x0D);
    proof {
        assert(r@ =~= fmt4_cr(measurement));
    }
    r
}

impl MockTCUPort {
    pub fn new() -> (r: Self)
        ensures
            r.pending@ == Seq::<u8>::empty(),
            r.replies@ == Seq::<u8>::empty(),
    {
        Self { pending: Vec::new(), replies: Vec::new() }
    }

    /// Take bytes written to the port. Once the written bytes hold a
    /// carriage return, the command up to it is consumed, echoed into the
    /// replies, and answered as `mock_tcu_reply` fixes; a command the mock
    /// does not understand is refused with everything left as it was.
    pub fn write_bytes(&mut self, buf: &[u8]) -> (r: Result<usize, ()>)
        ensures
            ({
                let combined = old(self).pending@ + buf@;
                let parts = crate::execution::transaction::split_after_cr(combined);
                if parts.len() == 0 || parts[0].len() == 0 || parts[0].last() != 0x0Du8 {
                    // No complete command yet: the bytes only accumulate.
                    r == Ok::<usize, ()>(buf@.len() as usize) && final(self).pending@ == combined
                        && final(self).replies@ == old(self).replies@
                } else {
                    let cmd = parts[0];
                    match mock_tcu_reply(cmd) {
                        Some(reply) => r == Ok::<usize, ()>(buf@.len() as usize)
                            && final(self).pending@ == combined.skip(cmd.len() as int)
                            && final(self).replies@ == old(self).replies@ + cmd + reply,
                        None => r == Err::<usize, ()>(()) && *final(self) == *old(self),
                    }
                }
            }),
    {
        let ghost combined = self.pending@ + buf@;
        let mut staged: Vec<u8> = subvec(&self.pending, 0, self.pending.len());
        let mut i: usize = 0;
        while i < buf.len()
            invariant
                0 <= i <= buf@.len(),
                staged@ == self.pending@ + buf@.take(i as int),
            decreases buf@.len() - i,
        {
            staged.push(buf[i]);
            proof {
                assert(self.pending@ + buf@.take(i as int + 1) =~= (self.pending@ + buf@.take(
                    i as int,
                )).push(buf@[i as int]));
            }
            i += 1;
        }
        proof {
            assert(buf@.take(buf@.len() as int) =~= buf@);
            assert(staged@ == combined);
        }
        // Find the first carriage return.
        let mut c1: usize = 0;
        while c1 < staged.len() && staged[c1] != 13
            invariant
                0 <= c1 <= staged@.len(),
                forall|j: int| 0 <= j < c1 ==> staged@[j] != 13,
            decreases staged@.len() - c1,
        {
            c1 += 1;
        }
        proof {
            crate::execution::measurement::lemma_before_cr_subrange(staged@, c1 as int);
            crate::execution::transaction::lemma_before_cr_len(staged@);
        }
        if c1 >= staged.len() {
            // No complete command yet.
            proof {
                let parts = crate::execution::transaction::split_after_cr(combined);
                if combined.len() > 0 {
                    assert(parts =~= seq![
                        crate::execution::measurement::before_cr(combined),
                    ]);
                    assert(parts[0].len() == 0 || parts[0].last() != 0x0Du8);
                }
            }
            self.pending = staged;
            return Ok(buf.len());
        }
        let ghost parts = crate::execution::transaction::split_after_cr(combined);
        proof {
            assert(crate::execution::measurement::before_cr(combined).len() == c1 as int);
            assert(parts[0] =~= combined.subrange(0, c1 as int + 1));
            assert(parts[0].last() == combined[c1 as int]);
        }
        let cmd = subvec(&staged, 0, c1 + 1);
        let rest = subvec(&staged, c1 + 1, staged.len());
        proof {
            assert(cmd@ =~= parts[0]);
            assert(rest@ =~= combined.skip(c1 as int + 1));
        }
        // Work out the reply before anything changes.
        let reply = match self.compute_reply(&cmd) {
            Some(reply) => reply,
            None => {
                return Err(());
            },
        };
        let mut replies = subvec(&self.replies, 0, self.replies.len());
        let mut j: usize = 0;
        while j < cmd.len()
            invariant
                0 <= j <= cmd@.len(),
                replies@ == self.replies@ + cmd@.take(j as int),
            decreases cmd@.len() - j,
        {
            replies.push(cmd[j]);
            proof {
                assert(self.replies@ + cmd@.take(j as int + 1) =~= (self.replies@ + cmd@.take(
                    j as int,
                )).push(cmd@[j as int]));
            }
            j += 1;
        }
        proof {
            assert(cmd@.take(cmd@.len() as int) =~= cmd@);
        }
        let mut k: usize = 0;
        while k < reply.len()
            invariant
                0 <= k <= reply@.len(),
                replies@ == self.replies@ + cmd@ + reply@.take(k as int),
            decreases reply@.len() - k,
        {
            replies.push(reply[k]);
            proof {
                assert(self.replies@ + cmd@ + reply@.take(k as int + 1) =~= (self.replies@ + cmd@
                    + reply@.take(k as int)).push(reply@[k as int]));
            }
            k += 1;
        }
        proof {
            assert(reply@.take(reply@.len() as int) =~= reply@);
        }
        self.pending = rest;
        self.replies = replies;
        Ok(buf.len())
    }

    /// The reply to one complete command, exactly as `mock_tcu_reply`
    /// fixes it.
    fn compute_reply(&self, cmd: &Vec<u8>) -> (r: Option<Vec<u8>>)
        ensures
            mock_tcu_reply(cmd@) matches Some(reply) ==> (r matches Some(v) && v@ == reply),
            mock_tcu_reply(cmd@) is None ==> r is None,
    {
        if cmd.len() < 2 {
            return None;
        }
        let head = cmd[0];
        if head == 0x50 || head == 0x43 || head == 0x4F {
            return Some(Vec::new());
        }
        if head == 0x4D {
            let digits = subvec(cmd, 1, cmd.len() - 1);
            if !hex_byte_text_exec(&digits) {
                return None;
            }
            let channel = tcu_decode_byte(digits.as_slice());
            let m: u16 = match self.tcu_channel_value(channel) {
                Some(m) => m,
                None => {
                    return None;
                },
            };
            return Some(tcu_format_measurement(m));
        }
        if head == 0x57 && cmd.len() >= 4 {
            let digits = subvec(cmd, cmd.len() - 3, cmd.len() - 1);
            if !hex_byte_text_exec(&digits) {
                return None;
            }
            let channel = tcu_decode_byte(digits.as_slice());
            let m: u16 = match self.printer_channel_value(channel) {
                Some(m) => m,
                None => {
                    return None;
                },
            };
            return Some(tcu_format_measurement(m));
        }
        None
    }

    /// The TCU measurement table.
    fn tcu_channel_value(&self, channel: u8) -> (r: Option<u16>)
        ensures
            r == mock_tcu_channel_value(channel as nat),
    {
        if channel == 0x00 || channel == 0x01 || channel == 0x04 {
            Some(100)
        } else if channel == 0x02 {
            Some(1)
        } else if channel == 0x03 || channel == 0x09 || channel == 0x0A || channel == 0x0B {
            Some(5000)
        } else if channel == 0x05 {
            Some(200)
        } else if channel == 0x06 {
            Some(300)
        } else if channel == 0x07 {
            Some(400)
        } else if channel == 0x08 {
            Some(41)
        } else if channel == 0x10 || channel == 0x11 || channel == 0x12 {
            Some(0)
        } else if channel == 0x13 || channel == 0x14 || channel == 0x15 || channel == 0x16 {
            Some(1)
        } else {
            None
        }
    }

    /// The printer measurement table.
    fn printer_channel_value(&self, channel: u8) -> (r: Option<u16>)
        ensures
            r == mock_printer_channel_value(channel as nat),
    {
        if channel <= 3 {
            Some(5000)
        } else if channel == 4 {
            Some(25)
        } else if channel == 5 {
            Some(0x40)
        } else if channel == 6 {
            Some(1)
        } else if channel <= 19 || (32 <= channel && channel <= 63) {
            Some(0)
        } else {
            None
        }
    }

    /// Hand out up to `max` reply bytes, oldest first.
    pub fn read_bytes(&mut self, max: usize) -> (r: Vec<u8>)
        ensures
            ({
                let took = if max <= old(self).replies@.len() {
                    max as int
                } else {
                    old(self).replies@.len() as int
                };
                r@ == old(self).replies@.take(took)
                    && final(self).replies@ == old(self).replies@.skip(took)
                    && final(self).pending@ == old(self).pending@
            }),
    {
        let took = if max <= self.replies.len() {
            max
        } else {
            self.replies.len()
        };
        let out = subvec(&self.replies, 0, took);
        let rest = subvec(&self.replies, took, self.replies.len());
        self.replies = rest;
        proof {
            assert(out@ =~= old(self).replies@.take(took as int));
            assert(self.replies@ =~= old(self).replies@.skip(took as int));
        }
        out
    }

    /// How many reply bytes wait to be read.
    pub fn bytes_to_read(&self) -> (r: usize)
        ensures
            r == self.replies@.len(),
    {
        self.replies.len()
    }
}

/// Whether the bytes are one or two hex digits standing for a byte.
fn hex_byte_text_exec(digits: &Vec<u8>) -> (r: bool)
    ensures
        r == hex_byte_text(digits@),
{
    if digits.len() == 0 {
        return false;
    }
    let mut i: usize = 0;
    let mut value: u32 = 0;
    while i < digits.len()
        invariant
            0 <= i <= digits@.len(),
            forall|j: int| 0 <= j < i ==> is_hex_digit(#[trigger] digits@[j]),
            value == hex_seq_val(digits@.take(i as int)),
            value <= 0xFFFF_FFF,
        decreases digits@.len() - i,
    {
        let b = digits[i];
        let hex = (0x30 <= b && b <= 0x39) || (0x41 <= b && b <= 0x46) || (0x61 <= b && b <= 0x66);
        if !hex {
            proof {
                assert(!is_hex_digit(digits@[i as int]));
            }
            return false;
        }
        let d: u8 = if b <= 0x39 {
            b - 0x30
        } else if b <= 0x46 {
            b - 0x41 + 10
        } else {
            b - 0x61 + 10
        };
        proof {
            assert(digits@.take(i as int + 1).drop_last() =~= digits@.take(i as int));
            assert(digits@.take(i as int + 1).last() == digits@[i as int]);
        }
        if value > 255 {
            // The value already exceeds a byte; one more digit keeps it
            // over.
            proof {
                lemma_hex_prefix_le(digits@, i as int);
            }
            return false;
        }
        value = value * 16 + d as u32;
        i += 1;
    }
    proof {
        assert(digits@.take(digits@.len() as int) =~= digits@);
    }
    value <= 255
}

} // verus!
