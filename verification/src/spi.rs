//! The SPI frame protocol of the PoE controller: how a command frame is built,
//! how a reply frame is checked, and when a failed transfer is retried.
//!
//! A command frame is `[cmd, arg1, arg2, crc, 0, 0, 0, 0, 0, 0]`; the reply
//! arrives in the same ten-byte transfer as `[pad x4] [tx crc echo] [cmd echo]
//! [data0] [data1] [rx crc] [rx crc]`, where the rx crc covers the command echo
//! and the two data bytes. Both checksums are Dallas/Maxim CRC-8.

use vstd::prelude::*;
use crate::error::MtpoeError;
use crate::text::{dec_int, hex2, push_dec_int, push_hex2, push_str, string_of};

verus! {

/// SPI mode used on the bus.
pub const SPI_MODE: u8 = 0;
/// Bits per word on the bus.
pub const SPI_BITS: u8 = 8;
/// Bus clock.
pub const SPI_SPEED_HZ: u32 = 2_200_000;
/// Delay between bytes, and the unit of the back-off between attempts.
pub const INTERBYTE_DELAY_USEC: u16 = 150;
/// Per-word delay of the transfer (a byte-wide field of the kernel interface).
pub const WORD_DELAY_USEC: u8 = 150;
/// Length of every command and reply frame.
pub const FRAME_LEN: usize = 10;
/// Number of retries after the first attempt.
pub const MAX_RETRY: usize = 10;

/// Read the firmware version.
pub const POE_CMD_FW_VER: u8 = 0x41;
/// Read the input voltage.
pub const POE_CMD_INP_VOLT: u8 = 0x42;
/// Read the controller temperature.
pub const POE_CMD_TEMPERAT: u8 = 0x43;
/// Set the mode of one port.
pub const POE_CMD_ON_OFF: u8 = 0x44;
/// Read the configured modes of all ports.
pub const POE_CMD_STATE: u8 = 0x45;
/// Base of the per-port status commands.
pub const POE_CMD_PORT_STATE_BASE: u8 = 0x50;

/// Protocol generation of the PoE controller.
#[derive(Debug, Clone, Copy, PartialEq, Eq, Structural)]
pub enum PoeProto {
    V2,
    V3,
    V4,
}

/// One shift of the reflected CRC-8/MAXIM register (polynomial 0x31, reflected 0x8C).
pub open spec fn crc8_shift(c: u8) -> u8 {
    if c % 2 == 1 {
        (c / 2) ^ 0x8Cu8
    } else {
        c / 2
    }
}

/// The register after feeding one byte: eight shifts of `crc ^ b`.
pub open spec fn crc8_feed(crc: u8, b: u8) -> u8 {
    let c0 = crc ^ b;
    crc8_shift(
        crc8_shift(crc8_shift(crc8_shift(crc8_shift(crc8_shift(crc8_shift(crc8_shift(c0))))))),
    )
}

/// CRC-8/MAXIM (Dallas 1-Wire): width 8, poly 0x31, init 0, reflected in and
/// out, no final xor.
pub open spec fn crc8_maxim(data: Seq<u8>) -> u8
    decreases data.len(),
{
    if data.len() == 0 {
        0
    } else {
        crc8_feed(crc8_maxim(data.drop_last()), data.last())
    }
}

/// Dallas/Maxim CRC-8 of `data`, as the controller computes it.
/// Trusted: `crc::Crc::<u8>::new(&crc::CRC_8_MAXIM_DOW).checksum` computes the
/// catalogue algorithm CRC-8/MAXIM-DOW, which `crc8_maxim` spells out.
#[verifier::external_body]
pub(crate) fn dallas_crc8(data: &[u8]) -> (c: u8)
    ensures
        c == crc8_maxim(data@),
{
    ::crc::Crc::<u8>::new(&::crc::CRC_8_MAXIM_DOW).checksum(data)
}

/// The command frame for `cmd` with its two arguments.
pub open spec fn tx_frame(cmd: u8, arg1: u8, arg2: u8) -> Seq<u8> {
    seq![cmd, arg1, arg2, crc8_maxim(seq![cmd, arg1, arg2]), 0u8, 0u8, 0u8, 0u8, 0u8, 0u8]
}

/// Builds the command frame for `cmd` with its two arguments.
pub fn build_tx_frame(cmd: u8, arg1: u8, arg2: u8) -> (tx: Vec<u8>)
    ensures
        tx@ == tx_frame(cmd, arg1, arg2),
{
    let head: Vec<u8> = vec![cmd, arg1, arg2];
    let crc: u8 = dallas_crc8(head.as_slice());
    let tx: Vec<u8> = vec![cmd, arg1, arg2, crc, 0, 0, 0, 0, 0, 0];
    assert(head@ =~= seq![cmd, arg1, arg2]);
    assert(tx@ =~= tx_frame(cmd, arg1, arg2));
    tx
}

/// The byte the controller echoes for the command checksum: V3 and V4 answer
/// 0xFF, V2 repeats the checksum it received.
pub open spec fn tx_crc_echo(proto: PoeProto, tx: Seq<u8>) -> u8 {
    match proto {
        PoeProto::V3 | PoeProto::V4 => 0xFFu8,
        PoeProto::V2 => tx[3],
    }
}

/// Why a transfer was not accepted.
#[derive(Debug, Clone, Copy, PartialEq, Eq, Structural)]
pub enum FrameFault {
    /// The transfer itself failed.
    IoctlFailed,
    /// The transfer moved a number of bytes other than the frame length.
    WrongLength(i32),
    /// The echoed command checksum is wrong.
    TxCrcEcho { got: u8, expected: u8 },
    /// The echoed command is wrong.
    CmdEcho { got: u8, expected: u8 },
    /// One of the two reply checksums is wrong.
    RxCrc { got: u8, again: u8, expected: u8 },
}

/// The verdict on a transfer of `tx` that returned `ret` and filled `rx`:
/// the two data bytes, or the first check that failed.
pub open spec fn frame_verdict(proto: PoeProto, tx: Seq<u8>, ret: i32, rx: Seq<u8>) -> Result<
    (u8, u8),
    FrameFault,
> {
    if ret < 1 {
        Err(FrameFault::IoctlFailed)
    } else if ret != 10 {
        Err(FrameFault::WrongLength(ret))
    } else if rx[4] != tx_crc_echo(proto, tx) {
        Err(FrameFault::TxCrcEcho { got: rx[4], expected: tx_crc_echo(proto, tx) })
    } else if rx[5] != tx[0] {
        Err(FrameFault::CmdEcho { got: rx[5], expected: tx[0] })
    } else if crc8_maxim(rx.subrange(5, 8)) != rx[8] || crc8_maxim(rx.subrange(5, 8)) != rx[9] {
        Err(
            FrameFault::RxCrc { got: rx[8], again: rx[9], expected: crc8_maxim(rx.subrange(5, 8)) },
        )
    } else {
        Ok((rx[6], rx[7]))
    }
}

/// The reply a healthy controller sends to `tx` when its answer is `d0 d1`,
/// after the four bytes `pad` clocked out while the command was still arriving.
pub open spec fn reply_frame(proto: PoeProto, tx: Seq<u8>, pad: Seq<u8>, d0: u8, d1: u8) -> Seq<u8> {
    let c = crc8_maxim(seq![tx[0], d0, d1]);
    pad + seq![tx_crc_echo(proto, tx), tx[0], d0, d1, c, c]
}

/// Checks the reply of one transfer of the ten-byte frame `tx`.
pub fn check_reply(proto: PoeProto, tx: &[u8], ret: i32, rx: &[u8]) -> (r: Result<[u8; 2], FrameFault>)
    requires
        tx@.len() == FRAME_LEN,
        rx@.len() == FRAME_LEN,
    ensures
        match frame_verdict(proto, tx@, ret, rx@) {
            Ok((d0, d1)) => r matches Ok(d) && d@ == seq![d0, d1],
            Err(f) => r == Err::<[u8; 2], FrameFault>(f),
        },
{
    if ret < 1 {
        return Err(FrameFault::IoctlFailed);
    }
    if ret != 10 {
        return Err(FrameFault::WrongLength(ret));
    }
    let expected: u8 = match proto {
        PoeProto::V3 | PoeProto::V4 => 0xFF,
        PoeProto::V2 => tx[3],
    };
    if rx[4] != expected {
        return Err(FrameFault::TxCrcEcho { got: rx[4], expected });
    }
    if rx[5] != tx[0] {
        return Err(FrameFault::CmdEcho { got: rx[5], expected: tx[0] });
    }
    let body: Vec<u8> = vec![rx[5], rx[6], rx[7]];
    assert(body@ =~= rx@.subrange(5, 8));
    let crc: u8 = dallas_crc8(body.as_slice());
    if crc != rx[8] || crc != rx[9] {
        return Err(FrameFault::RxCrc { got: rx[8], again: rx[9], expected: crc });
    }
    let d: [u8; 2] = [rx[6], rx[7]];
    assert(d@ =~= seq![rx@[6], rx@[7]]);
    Ok(d)
}

/// The error a fault turns into once no retry is left, as variant and detail.
pub open spec fn fault_error(f: FrameFault, e: MtpoeError) -> bool {
    match f {
        FrameFault::IoctlFailed => e matches MtpoeError::Spi(m) && m@ == "ioctl failed"@,
        FrameFault::WrongLength(ret) => e matches MtpoeError::Spi(m) && m@ == "expected 10 bytes, got "@
            + dec_int(ret as int),
        FrameFault::TxCrcEcho { got, expected } => e matches MtpoeError::SpiCrc(m) && m@
            == "tx crc echo: got 0x"@ + hex2(got, false) + ", expected 0x"@ + hex2(expected, false),
        FrameFault::CmdEcho { got, expected } => e matches MtpoeError::SpiCmd(m) && m@
            == "cmd echo: got 0x"@ + hex2(got, false) + ", expected 0x"@ + hex2(expected, false),
        FrameFault::RxCrc { got, again, expected } => e matches MtpoeError::SpiCrc(m) && m@
            == "rx crc: got 0x"@ + hex2(got, false) + "/0x"@ + hex2(again, false) + ", expected 0x"@
            + hex2(expected, false),
    }
}

/// The error reported for a fault.
pub fn fault_to_error(f: FrameFault) -> (e: MtpoeError)
    ensures
        fault_error(f, e),
{
    match f {
        FrameFault::IoctlFailed => MtpoeError::Spi(string_of("ioctl failed")),
        FrameFault::WrongLength(ret) => {
            let mut m: String = string_of("expected 10 bytes, got ");
            push_dec_int(&mut m, ret as i64);
            MtpoeError::Spi(m)
        },
        FrameFault::TxCrcEcho { got, expected } => {
            let mut m: String = string_of("tx crc echo: got 0x");
            push_hex2(&mut m, got, false);
            push_str(&mut m, ", expected 0x");
            push_hex2(&mut m, expected, false);
            MtpoeError::SpiCrc(m)
        },
        FrameFault::CmdEcho { got, expected } => {
            let mut m: String = string_of("cmd echo: got 0x");
            push_hex2(&mut m, got, false);
            push_str(&mut m, ", expected 0x");
            push_hex2(&mut m, expected, false);
            MtpoeError::SpiCmd(m)
        },
        FrameFault::RxCrc { got, again, expected } => {
            let mut m: String = string_of("rx crc: got 0x");
            push_hex2(&mut m, got, false);
            push_str(&mut m, "/0x");
            push_hex2(&mut m, again, false);
            push_str(&mut m, ", expected 0x");
            push_hex2(&mut m, expected, false);
            MtpoeError::SpiCrc(m)
        },
    }
}

/// What the query loop does after one transfer.
#[derive(Debug)]
pub enum QueryStep {
    /// Wait `delay_us` microseconds, then make attempt number `attempt`.
    Retry { attempt: usize, delay_us: u64 },
    /// The query is over, with the two data bytes or the last fault's error.
    Done(Result<[u8; 2], MtpoeError>),
}

/// The back-off before attempt number `attempt`.
pub open spec fn retry_delay(attempt: nat) -> nat {
    150 * attempt
}

/// Decides, after attempt `attempt` (counted from 0) of transferring `tx`, whether
/// the query is answered, failed for good, or tried again. A fault is retried
/// while fewer than `MAX_RETRY` retries have been made.
pub fn query_step(proto: PoeProto, tx: &[u8], attempt: usize, ret: i32, rx: &[u8]) -> (s: QueryStep)
    requires
        tx@.len() == FRAME_LEN,
        rx@.len() == FRAME_LEN,
        attempt <= MAX_RETRY,
    ensures
        match frame_verdict(proto, tx@, ret, rx@) {
            Ok((d0, d1)) => s matches QueryStep::Done(Ok(d)) && d@ == seq![d0, d1],
            Err(f) => if attempt < MAX_RETRY {
                s == (QueryStep::Retry {
                    attempt: (attempt + 1) as usize,
                    delay_us: retry_delay((attempt + 1) as nat) as u64,
                })
            } else {
                s matches QueryStep::Done(Err(e)) && fault_error(f, e)
            },
        },
{
    match check_reply(proto, tx, ret, rx) {
        Ok(d) => QueryStep::Done(Ok(d)),
        Err(f) => {
            if attempt < MAX_RETRY {
                let next: usize = attempt + 1;
                let unit: u64 = INTERBYTE_DELAY_USEC as u64;
                assert(unit == 150);
                QueryStep::Retry { attempt: next, delay_us: unit * next as u64 }
            } else {
                QueryStep::Done(Err(fault_to_error(f)))
            }
        },
    }
}

/// The result of a raw transfer that returned `ret` and filled `rx`: the bytes
/// received, unless the transfer failed.
pub fn raw_reply(ret: i32, rx: Vec<u8>) -> (r: Result<Vec<u8>, MtpoeError>)
    ensures
        ret >= 1 ==> r == Ok::<Vec<u8>, MtpoeError>(rx),
        ret < 1 ==> (r matches Err(MtpoeError::Spi(m)) && m@ == "raw ioctl failed"@),
{
    if ret < 1 {
        return Err(MtpoeError::Spi(string_of("raw ioctl failed")));
    }
    Ok(rx)
}

/// Every reply a healthy controller gives to a command frame is accepted, and
/// yields exactly the two data bytes it carries, whatever the padding.
pub proof fn lemma_reply_accepted(
    proto: PoeProto,
    cmd: u8,
    arg1: u8,
    arg2: u8,
    pad: Seq<u8>,
    d0: u8,
    d1: u8,
)
    requires
        pad.len() == 4,
    ensures
        frame_verdict(proto, tx_frame(cmd, arg1, arg2), 10, reply_frame(proto, tx_frame(cmd, arg1, arg2), pad, d0, d1))
            == Ok::<(u8, u8), FrameFault>((d0, d1)),
{
    let tx = tx_frame(cmd, arg1, arg2);
    let rx = reply_frame(proto, tx, pad, d0, d1);
    assert(rx.subrange(5, 8) =~= seq![tx[0], d0, d1]);
}

/// A transfer is accepted only when it moved a whole frame and the reply is the
/// one a healthy controller sends for the data it yields.
pub proof fn lemma_accepted_is_reply(proto: PoeProto, tx: Seq<u8>, ret: i32, rx: Seq<u8>, d0: u8, d1: u8)
    requires
        tx.len() == FRAME_LEN,
        rx.len() == FRAME_LEN,
        frame_verdict(proto, tx, ret, rx) == Ok::<(u8, u8), FrameFault>((d0, d1)),
    ensures
        ret == 10,
        rx == reply_frame(proto, tx, rx.take(4), d0, d1),
{
    assert(rx.subrange(5, 8) =~= seq![tx[0], d0, d1]);
    assert(rx =~= reply_frame(proto, tx, rx.take(4), d0, d1));
}

/// The checksum echo a healthy controller sends does not depend on the command:
/// V3 and V4 always answer 0xFF, V2 repeats the checksum of the command frame.
/// So for every command and its arguments, the reply `[pad x4] [echo] [cmd]
/// [d0] [d1] [crc] [crc]`, with the reply checksum over `cmd d0 d1`, is accepted
/// and yields `d0 d1`.
pub proof fn lemma_healthy_echo_accepted(
    proto: PoeProto,
    cmd: u8,
    arg1: u8,
    arg2: u8,
    pad: Seq<u8>,
    d0: u8,
    d1: u8,
)
    requires
        pad.len() == 4,
    ensures
        ({
            let echo: u8 = if proto == PoeProto::V2 { crc8_maxim(seq![cmd, arg1, arg2]) } else { 0xFFu8 };
            let c: u8 = crc8_maxim(seq![cmd, d0, d1]);
            frame_verdict(proto, tx_frame(cmd, arg1, arg2), 10, pad + seq![echo, cmd, d0, d1, c, c])
                == Ok::<(u8, u8), FrameFault>((d0, d1))
        }),
        proto != PoeProto::V2 ==> tx_crc_echo(proto, tx_frame(cmd, arg1, arg2)) == 0xFFu8,
{
    let echo: u8 = if proto == PoeProto::V2 { crc8_maxim(seq![cmd, arg1, arg2]) } else { 0xFFu8 };
    let c: u8 = crc8_maxim(seq![cmd, d0, d1]);
    let rx = pad + seq![echo, cmd, d0, d1, c, c];
    assert(rx.subrange(5, 8) =~= seq![cmd, d0, d1]);
}

/// The CRC-8/MAXIM statement agrees with the catalogue check value ("123456789"
/// gives 0xA1) and with checksums observed on the hardware.
pub proof fn lemma_crc8_known_values()
    ensures
        crc8_maxim(seq![0x47u8, 0xAA, 0x00]) == 0x42,
        crc8_maxim(seq![0x48u8, 0x01, 0x23]) == 0x11,
        crc8_maxim(seq![0x31u8, 0x32, 0x33, 0x34, 0x35, 0x36, 0x37, 0x38, 0x39]) == 0xA1,
{
    let a = seq![0x47u8, 0xAA, 0x00];
    assert(a.drop_last().drop_last().drop_last() =~= Seq::<u8>::empty());
    assert(a.drop_last().drop_last() =~= seq![0x47u8]);
    assert(a.drop_last() =~= seq![0x47u8, 0xAA]);
    assert(crc8_maxim(a.drop_last().drop_last().drop_last()) == 0);
    assert(crc8_maxim(a.drop_last().drop_last()) == crc8_feed(0u8, 0x47u8));
    assert(crc8_maxim(a.drop_last()) == crc8_feed(crc8_feed(0u8, 0x47u8), 0xAAu8));
    assert(crc8_feed(crc8_feed(crc8_feed(0u8, 0x47u8), 0xAAu8), 0x00u8) == 0x42u8) by (bit_vector);
    let b = seq![0x48u8, 0x01, 0x23];
    assert(b.drop_last().drop_last() =~= seq![0x48u8]);
    assert(b.drop_last() =~= seq![0x48u8, 0x01]);
    assert(b.drop_last().drop_last().drop_last() =~= Seq::<u8>::empty());
    assert(crc8_maxim(b.drop_last().drop_last().drop_last()) == 0);
    assert(crc8_maxim(b.drop_last().drop_last()) == crc8_feed(0u8, 0x48u8));
    assert(crc8_maxim(b.drop_last()) == crc8_feed(crc8_feed(0u8, 0x48u8), 0x01u8));
    assert(crc8_feed(crc8_feed(crc8_feed(0u8, 0x48u8), 0x01u8), 0x23u8) == 0x11u8) by (bit_vector);
    lemma_crc8_check_value();
}

/// The catalogue check value, step by step.
proof fn lemma_crc8_check_value()
    ensures
        crc8_maxim(seq![0x31u8, 0x32, 0x33, 0x34, 0x35, 0x36, 0x37, 0x38, 0x39]) == 0xA1,
{
    let c = seq![0x31u8, 0x32, 0x33, 0x34, 0x35, 0x36, 0x37, 0x38, 0x39];
    assert(crc8_feed(0x00u8, 0x31u8) == 0xE0u8) by (bit_vector);
    assert(crc8_feed(0xE0u8, 0x32u8) == 0xEBu8) by (bit_vector);
    assert(crc8_feed(0xEBu8, 0x33u8) == 0x95u8) by (bit_vector);
    assert(crc8_feed(0x95u8, 0x34u8) == 0xF1u8) by (bit_vector);
    assert(crc8_feed(0xF1u8, 0x35u8) == 0xABu8) by (bit_vector);
    assert(crc8_feed(0xABu8, 0x36u8) == 0xECu8) by (bit_vector);
    assert(crc8_feed(0xECu8, 0x37u8) == 0x77u8) by (bit_vector);
    assert(crc8_feed(0x77u8, 0x38u8) == 0x07u8) by (bit_vector);
    assert(crc8_feed(0x07u8, 0x39u8) == 0xA1u8) by (bit_vector);
    assert(c.subrange(0, 9).drop_last() =~= c.subrange(0, 8));
    assert(c.subrange(0, 8).drop_last() =~= c.subrange(0, 7));
    assert(c.subrange(0, 7).drop_last() =~= c.subrange(0, 6));
    assert(c.subrange(0, 6).drop_last() =~= c.subrange(0, 5));
    assert(c.subrange(0, 5).drop_last() =~= c.subrange(0, 4));
    assert(c.subrange(0, 4).drop_last() =~= c.subrange(0, 3));
    assert(c.subrange(0, 3).drop_last() =~= c.subrange(0, 2));
    assert(c.subrange(0, 2).drop_last() =~= c.subrange(0, 1));
    assert(c.subrange(0, 1).drop_last() =~= c.subrange(0, 0));
    assert(c.subrange(0, 9) =~= c);
    assert(crc8_maxim(c.subrange(0, 0)) == 0);
    assert(c.subrange(0, 1).last() == 0x31u8);
    assert(crc8_maxim(c.subrange(0, 1)) == 0xE0u8);
    assert(c.subrange(0, 2).last() == 0x32u8);
    assert(crc8_maxim(c.subrange(0, 2)) == 0xEBu8);
    assert(c.subrange(0, 3).last() == 0x33u8);
    assert(crc8_maxim(c.subrange(0, 3)) == 0x95u8);
    assert(c.subrange(0, 4).last() == 0x34u8);
    assert(crc8_maxim(c.subrange(0, 4)) == 0xF1u8);
    assert(c.subrange(0, 5).last() == 0x35u8);
    assert(crc8_maxim(c.subrange(0, 5)) == 0xABu8);
    assert(c.subrange(0, 6).last() == 0x36u8);
    assert(crc8_maxim(c.subrange(0, 6)) == 0xECu8);
    assert(c.subrange(0, 7).last() == 0x37u8);
    assert(crc8_maxim(c.subrange(0, 7)) == 0x77u8);
    assert(c.subrange(0, 8).last() == 0x38u8);
    assert(crc8_maxim(c.subrange(0, 8)) == 0x07u8);
    assert(c.subrange(0, 9).last() == 0x39u8);
    assert(crc8_maxim(c.subrange(0, 9)) == 0xA1u8);
}

} // verus!
