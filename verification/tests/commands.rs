use mtpoe::board::{board_by_index, detect_board, poe_board, select_proto, POE_BOARD_COUNT};
use mtpoe::command::{next_round, RoundDecision};
use mtpoe::error::MtpoeError;
use mtpoe::rawsend::{hex_list, parse_hex_bytes, probe_result, raw_send_result};
use mtpoe::spi::PoeProto;
use mtpoe::uci::{load_poe_from_uci, write_default_config, UciReply, UciStep};

#[test]
fn hex_bytes_are_read_token_by_token() {
    assert_eq!(parse_hex_bytes("41 00 00").unwrap(), vec![0x41, 0, 0]);
    assert_eq!(parse_hex_bytes("  0x41\t0xff\n+a ").unwrap(), vec![0x41, 0xff, 0x0a]);
    // Repeated prefixes are all stripped.
    assert_eq!(parse_hex_bytes("0x0x1F").unwrap(), vec![0x1f]);
    assert_eq!(parse_hex_bytes("0x").is_err(), true);
    match parse_hex_bytes("41 zz 00") {
        Err(MtpoeError::InvalidValue(m)) => assert_eq!(m, "invalid hex byte: 'zz'"),
        _ => panic!("expected a bad token"),
    }
    match parse_hex_bytes("100") {
        Err(MtpoeError::InvalidValue(m)) => assert_eq!(m, "invalid hex byte: '100'"),
        _ => panic!("expected a bad token"),
    }
    match parse_hex_bytes(" \u{3000} ") {
        Err(MtpoeError::InvalidValue(m)) => assert_eq!(m, "no bytes to send"),
        _ => panic!("expected nothing to send"),
    }
}

#[test]
fn hex_listing_round_trips() {
    let bytes = vec![0x41u8, 0x00, 0xAB, 0x0F];
    let shown = hex_list(&bytes);
    assert_eq!(shown, "0x41 0x00 0xAB 0x0F");
    assert_eq!(parse_hex_bytes(&shown).unwrap(), bytes);
    assert_eq!(hex_list(&[]), "");
    let r = raw_send_result(&[0x41], &[0xff, 0x01]);
    assert_eq!((r.action.as_str(), r.tx.as_str(), r.rx.as_str()), ("raw_send", "0x41", "0xFF 0x01"));
    let p = probe_result(0x41, 0, 0, &[0x41, 0, 0], &[1], 0x41, 0x15);
    assert_eq!(p.cmd, "0x41");
    assert_eq!(p.data_hex, "0x4115");
    assert_eq!(p.data_dec, 0x4115);
    assert_eq!(p.action, "probe");
}

#[test]
fn boards_are_recognised_by_name() {
    let b = detect_board("mikrotik,rb5009upr\n").unwrap();
    assert_eq!(b.proto, PoeProto::V4);
    assert_eq!(b.ports_num, 8);
    assert_eq!(b.spidev, "/dev/spidev2.0");
    assert_eq!(b.port_state_map, vec![8, 7, 6, 5, 4, 3, 2, 1]);
    let b = detect_board("  rb-750p-pbr2 ").unwrap();
    assert_eq!(b.proto, PoeProto::V2);
    let b = detect_board("mikrotik,routerboard-960pgs").unwrap();
    assert_eq!((b.proto, b.ports_num), (PoeProto::V3, 4));
    match detect_board(" mikrotik,rb5009ug\n") {
        Err(MtpoeError::BoardDetection(m)) => assert_eq!(m, "unsupported board: 'mikrotik,rb5009ug'"),
        _ => panic!("expected an unsupported board"),
    }
}

#[test]
fn boards_by_number_and_protocol_choice() {
    assert_eq!(POE_BOARD_COUNT, 3);
    assert_eq!(board_by_index(0).unwrap().proto, PoeProto::V2);
    assert_eq!(board_by_index(1).unwrap().proto, PoeProto::V2);
    assert_eq!(board_by_index(3).unwrap().proto, PoeProto::V4);
    match board_by_index(4) {
        Err(MtpoeError::BoardDetection(m)) => assert_eq!(m, "board index 4 out of range"),
        _ => panic!("expected out of range"),
    }
    assert_eq!(poe_board(1).names, vec!["mikrotik,routerboard-960pgs"]);
    assert_eq!(select_proto(Some(3), PoeProto::V2).unwrap(), PoeProto::V3);
    assert_eq!(select_proto(None, PoeProto::V4).unwrap(), PoeProto::V4);
    match select_proto(Some(5), PoeProto::V2) {
        Err(MtpoeError::InvalidValue(m)) => assert_eq!(m, "unknown proto version 5"),
        _ => panic!("expected an unknown protocol"),
    }
}

#[test]
fn command_loop_decisions() {
    assert_eq!(next_round(0, None, 0), RoundDecision::Finish);
    assert_eq!(next_round(0, Some(false), 0), RoundDecision::Abort { consecutive_errors: 1 });
    assert_eq!(
        next_round(0, Some(false), 5),
        RoundDecision::Again { consecutive_errors: 1, sleep_secs: 5 }
    );
    assert_eq!(
        next_round(1, Some(false), 5),
        RoundDecision::Again { consecutive_errors: 2, sleep_secs: 5 }
    );
    assert_eq!(next_round(2, Some(false), 5), RoundDecision::Abort { consecutive_errors: 3 });
    assert_eq!(next_round(0, Some(true), 5), RoundDecision::Abort { consecutive_errors: 1 });
    assert_eq!(
        next_round(2, None, 5),
        RoundDecision::Again { consecutive_errors: 0, sleep_secs: 5 }
    );
}

fn ok(stdout: &str) -> UciReply {
    UciReply::Exited { success: true, stdout: stdout.into() }
}

fn missing() -> UciReply {
    UciReply::Exited { success: false, stdout: String::new() }
}

#[test]
fn loading_asks_for_each_port_then_returns_set_ones() {
    match load_poe_from_uci("poe", 4, &[]) {
        UciStep::Run(args) => assert_eq!(args, vec!["-q", "get", "mtpoe.@poe[0].port1"]),
        _ => panic!("expected a run"),
    }
    match load_poe_from_uci("poe", 4, &[ok("2\n"), missing()]) {
        UciStep::Run(args) => assert_eq!(args, vec!["-q", "get", "mtpoe.@poe[0].port3"]),
        _ => panic!("expected a run"),
    }
    match load_poe_from_uci("poe", 4, &[ok("2\n"), missing(), ok(" +1 "), ok("0")]) {
        UciStep::Done(Ok(v)) => assert_eq!(v, vec![(1, 2), (3, 1), (4, 0)]),
        _ => panic!("expected the ports"),
    }
}

#[test]
fn loading_accepts_mode_names() {
    match load_poe_from_uci("poe", 3, &[ok("auto\n"), ok("force"), ok(" off ")]) {
        UciStep::Done(Ok(v)) => assert_eq!(v, vec![(1, 2), (2, 1), (3, 0)]),
        _ => panic!("expected the ports"),
    }
}

#[test]
fn loading_reports_bad_values() {
    match load_poe_from_uci("poe", 4, &[ok("bogus\n")]) {
        UciStep::Done(Err(MtpoeError::Uci(m))) => assert_eq!(m, "port1: invalid value 'bogus'"),
        _ => panic!("expected an error"),
    }
    match load_poe_from_uci("poe", 4, &[missing(), ok("3")]) {
        UciStep::Done(Err(MtpoeError::Uci(m))) => {
            assert_eq!(m, "port2: value 3 out of range (must be 0..2)")
        }
        _ => panic!("expected an error"),
    }
    match load_poe_from_uci("poe", 4, &[UciReply::SpawnFailed("not found".into())]) {
        UciStep::Done(Err(MtpoeError::Uci(m))) => assert_eq!(m, "uci get failed: not found"),
        _ => panic!("expected an error"),
    }
}

#[test]
fn seeding_runs_lookup_add_sets_commit() {
    match write_default_config("poe", 2, &[]) {
        UciStep::Run(args) => assert_eq!(args, vec!["-q", "get", "mtpoe.@poe[0]"]),
        _ => panic!("expected a run"),
    }
    match write_default_config("poe", 2, &[ok("")]) {
        UciStep::Done(Ok(n)) => assert_eq!(n, 0),
        _ => panic!("expected nothing to do"),
    }
    let mut replies = vec![missing()];
    let expected: Vec<Vec<&str>> = vec![
        vec!["add", "mtpoe", "poe"],
        vec!["set", "mtpoe.@poe[-1].port1=2"],
        vec!["set", "mtpoe.@poe[-1].port2=2"],
        vec!["commit", "mtpoe"],
    ];
    for want in expected {
        match write_default_config("poe", 2, &replies) {
            UciStep::Run(args) => assert_eq!(args, want),
            _ => panic!("expected a run"),
        }
        replies.push(ok(""));
    }
    match write_default_config("poe", 2, &replies) {
        UciStep::Done(Ok(n)) => assert_eq!(n, 2),
        _ => panic!("expected the port count"),
    }
}

#[test]
fn seeding_reports_failed_runs() {
    match write_default_config("poe", 2, &[UciReply::SpawnFailed("gone".into()), missing()]) {
        UciStep::Done(Err(MtpoeError::Uci(m))) => assert_eq!(m, "uci add mtpoe poe failed"),
        _ => panic!("expected an error"),
    }
    match write_default_config("poe", 2, &[missing(), ok(""), UciReply::SpawnFailed("gone".into())]) {
        UciStep::Done(Err(MtpoeError::Uci(m))) => {
            assert_eq!(m, "uci set mtpoe.@poe[-1].port1=2: gone")
        }
        _ => panic!("expected an error"),
    }
}

fn drive(outcomes: &[Option<bool>], period: u64) -> (usize, RoundDecision) {
    let mut errors: u32 = 0;
    for (i, o) in outcomes.iter().enumerate() {
        match next_round(errors, *o, period) {
            RoundDecision::Again { consecutive_errors, sleep_secs } => {
                assert_eq!(sleep_secs, period);
                errors = consecutive_errors;
            }
            stop => return (i + 1, stop),
        }
    }
    (outcomes.len(), RoundDecision::Again { consecutive_errors: errors, sleep_secs: period })
}

#[test]
fn command_loop_over_many_runs() {
    let f = Some(false);
    // A success between failures clears the count: the third failure in a row is the fifth run.
    assert_eq!(
        drive(&[f, None, f, f, f, f], 5),
        (5, RoundDecision::Abort { consecutive_errors: 3 })
    );
    // A fatal failure stops at once.
    assert_eq!(drive(&[None, f, Some(true), None], 5), (3, RoundDecision::Abort { consecutive_errors: 2 }));
    // Successes alone never stop a periodic run.
    assert_eq!(
        drive(&[None, None, None], 5),
        (3, RoundDecision::Again { consecutive_errors: 0, sleep_secs: 5 })
    );
    // A single run stops after its first run either way.
    assert_eq!(drive(&[None, f], 0), (1, RoundDecision::Finish));
    assert_eq!(drive(&[f, None], 0), (1, RoundDecision::Abort { consecutive_errors: 1 }));
}
