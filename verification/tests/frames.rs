use mtpoe::error::MtpoeError;
use mtpoe::spi::{
    build_tx_frame, raw_reply, check_reply, fault_to_error, query_step, FrameFault, PoeProto,
    QueryStep, MAX_RETRY, POE_CMD_FW_VER,
};

/// The Dallas/Maxim CRC-8 of three bytes, as it lands in a command frame.
fn dallas_crc8(data: &[u8; 3]) -> u8 {
    build_tx_frame(data[0], data[1], data[2])[3]
}

#[test]
fn crc8_matches_hardware_reference() {
    // Hardware-verified reference values for the Dallas/Maxim CRC-8.
    assert_eq!(dallas_crc8(&[0x47, 0xAA, 0x00]), 0x42);
    assert_eq!(dallas_crc8(&[0x48, 0x01, 0x23]), 0x11);
}

#[test]
fn command_frame_layout() {
    let tx = build_tx_frame(0x47, 0xAA, 0x00);
    assert_eq!(tx, vec![0x47, 0xAA, 0x00, 0x42, 0, 0, 0, 0, 0, 0]);
}

fn reply(proto: PoeProto, tx: &[u8], d0: u8, d1: u8) -> Vec<u8> {
    let echo = match proto {
        PoeProto::V2 => tx[3],
        _ => 0xFF,
    };
    let c = dallas_crc8(&[tx[0], d0, d1]);
    vec![0x11, 0x22, 0x33, 0x44, echo, tx[0], d0, d1, c, c]
}

#[test]
fn healthy_replies_are_accepted() {
    for proto in [PoeProto::V2, PoeProto::V3, PoeProto::V4] {
        let tx = build_tx_frame(POE_CMD_FW_VER, 0, 0);
        let rx = reply(proto, &tx, 65, 21);
        assert_eq!(check_reply(proto, &tx, 10, &rx).unwrap(), [65, 21]);
        match query_step(proto, &tx, 0, 10, &rx) {
            QueryStep::Done(Ok(d)) => assert_eq!(d, [65, 21]),
            other => panic!("unexpected step {:?}", other),
        }
    }
}

#[test]
fn faults_are_found_in_order() {
    let tx = build_tx_frame(0x45, 0, 0);
    let good = reply(PoeProto::V3, &tx, 0x12, 0x34);
    assert_eq!(check_reply(PoeProto::V3, &tx, 0, &good), Err(FrameFault::IoctlFailed));
    assert_eq!(check_reply(PoeProto::V3, &tx, 9, &good), Err(FrameFault::WrongLength(9)));
    // V2 expects the checksum echoed, not 0xFF.
    assert_eq!(
        check_reply(PoeProto::V2, &tx, 10, &good),
        Err(FrameFault::TxCrcEcho { got: 0xFF, expected: tx[3] })
    );
    let mut bad_cmd = good.clone();
    bad_cmd[5] = 0x46;
    assert_eq!(
        check_reply(PoeProto::V3, &tx, 10, &bad_cmd),
        Err(FrameFault::CmdEcho { got: 0x46, expected: 0x45 })
    );
    let mut bad_crc = good.clone();
    bad_crc[9] ^= 1;
    let expected = good[8];
    assert_eq!(
        check_reply(PoeProto::V3, &tx, 10, &bad_crc),
        Err(FrameFault::RxCrc { got: expected, again: expected ^ 1, expected })
    );
}

#[test]
fn faults_are_retried_with_growing_delay_then_reported() {
    let tx = build_tx_frame(0x45, 0, 0);
    let rx = vec![0u8; 10];
    for attempt in 0..MAX_RETRY {
        match query_step(PoeProto::V3, &tx, attempt, -1, &rx) {
            QueryStep::Retry { attempt: next, delay_us } => {
                assert_eq!(next, attempt + 1);
                assert_eq!(delay_us, 150 * (attempt as u64 + 1));
            }
            other => panic!("unexpected step {:?}", other),
        }
    }
    match query_step(PoeProto::V3, &tx, MAX_RETRY, -1, &rx) {
        QueryStep::Done(Err(MtpoeError::Spi(m))) => assert_eq!(m, "ioctl failed"),
        other => panic!("unexpected step {:?}", other),
    }
    match query_step(PoeProto::V3, &tx, MAX_RETRY, 4, &rx) {
        QueryStep::Done(Err(MtpoeError::Spi(m))) => assert_eq!(m, "expected 10 bytes, got 4"),
        other => panic!("unexpected step {:?}", other),
    }
}

#[test]
fn fault_messages() {
    match fault_to_error(FrameFault::TxCrcEcho { got: 0x0a, expected: 0xff }) {
        MtpoeError::SpiCrc(m) => assert_eq!(m, "tx crc echo: got 0x0a, expected 0xff"),
        e => panic!("unexpected {:?}", e),
    }
    match fault_to_error(FrameFault::CmdEcho { got: 0x46, expected: 0x45 }) {
        MtpoeError::SpiCmd(m) => assert_eq!(m, "cmd echo: got 0x46, expected 0x45"),
        e => panic!("unexpected {:?}", e),
    }
    match fault_to_error(FrameFault::RxCrc { got: 1, again: 2, expected: 0xab }) {
        MtpoeError::SpiCrc(m) => assert_eq!(m, "rx crc: got 0x01/0x02, expected 0xab"),
        e => panic!("unexpected {:?}", e),
    }
}

#[test]
fn raw_transfers_fail_only_on_ioctl_error() {
    assert_eq!(raw_reply(3, vec![1, 2, 3]).unwrap(), vec![1, 2, 3]);
    match raw_reply(0, vec![0]) {
        Err(MtpoeError::Spi(m)) => assert_eq!(m, "raw ioctl failed"),
        other => panic!("unexpected {:?}", other),
    }
}
