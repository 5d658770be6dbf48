use mtpoe::error::MtpoeError;
use mtpoe::output::PortStatusValue;
use mtpoe::poe::{
    check_set_reply, decode_poe_config, fw_version_string, hw_port, parse_poe_value, plan_apply,
    plan_poe_set, poe_config_str, poe_status_value, port_state_cmd, set_poe_result,
    temp_v3v4_celsius, temperature_celsius, word_of,
};
use mtpoe::spi::PoeProto;

#[test]
fn hw_port_reverses_and_bounds_check() {
    // Chassis labels map to the reversed hardware numbering.
    assert_eq!(hw_port(8, 1).unwrap(), 8);
    assert_eq!(hw_port(8, 8).unwrap(), 1);
    assert_eq!(hw_port(4, 1).unwrap(), 4);
    assert_eq!(hw_port(4, 4).unwrap(), 1);
    // Out of range is rejected, no underflow.
    assert!(hw_port(8, 0).is_err());
    assert!(hw_port(8, 9).is_err());
}

#[test]
fn parse_poe_value_accepts_names_and_digits() {
    assert_eq!(parse_poe_value("off").unwrap(), 0);
    assert_eq!(parse_poe_value("on").unwrap(), 1);
    assert_eq!(parse_poe_value("auto").unwrap(), 2);
    assert_eq!(parse_poe_value("0").unwrap(), 0);
    assert_eq!(parse_poe_value("2").unwrap(), 2);
    assert!(parse_poe_value("bogus").is_err());
}

#[test]
fn temp_v3v4_matches_block_formula() {
    assert_eq!(temp_v3v4_celsius(0), -273);
    assert_eq!(temp_v3v4_celsius(12), -268); // n=1, o=0
    assert_eq!(temp_v3v4_celsius(744), 37); // n=62, o=0
    assert_eq!(temp_v3v4_celsius(743), 36); // n=61, o=11 -> +4
    assert_eq!(temp_v3v4_celsius(6), -271); // n=0, o=6 -> +2
}

#[test]
fn poe_status_value_decodes_flags_and_current() {
    assert!(matches!(poe_status_value(0x8001), PortStatusValue::State { name, .. } if name == "auto"));
    assert!(matches!(poe_status_value(0x800A), PortStatusValue::State { name, .. } if name == "short"));
    assert!(matches!(poe_status_value(0x800F), PortStatusValue::State { name, .. } if name == "on"));
    assert!(matches!(poe_status_value(0x8000), PortStatusValue::State { name, .. } if name == "off"));
    assert!(matches!(poe_status_value(0x0061), PortStatusValue::Current(97)));
}

#[test]
fn poe_status_value_keeps_code_and_flags_others_off() {
    match poe_status_value(0x8003) {
        PortStatusValue::State { name, code, verified } => {
            assert_eq!(name, "off");
            assert_eq!(code, 3);
            assert!(verified);
        }
        PortStatusValue::Current(_) => panic!("flagged word read as current"),
    }
    assert!(matches!(poe_status_value(0x7FFF), PortStatusValue::Current(32767)));
}

#[test]
fn parse_poe_value_accepts_force_and_reports_bad_word() {
    assert_eq!(parse_poe_value("force").unwrap(), 1);
    assert_eq!(parse_poe_value("1").unwrap(), 1);
    match parse_poe_value("On") {
        Err(MtpoeError::InvalidValue(m)) => assert_eq!(m, "'On' — must be off/on/auto or 0/1/2"),
        _ => panic!("expected an invalid value"),
    }
}

#[test]
fn poe_config_names_round_trip() {
    assert_eq!(poe_config_str(0), "off");
    assert_eq!(poe_config_str(1), "force");
    assert_eq!(poe_config_str(2), "auto");
    assert_eq!(poe_config_str(7), "n/a");
    for v in 0..=2u8 {
        assert_eq!(parse_poe_value(&poe_config_str(v)).unwrap(), v);
    }
}

#[test]
fn hw_port_involution_and_message() {
    for n in [4usize, 8] {
        for p in 1..=n {
            let hw = hw_port(n, p).unwrap() as usize;
            assert_eq!(hw_port(n, hw).unwrap() as usize, p);
        }
    }
    match hw_port(8, 9) {
        Err(MtpoeError::InvalidPort(m)) => assert_eq!(m, "9 — must be 1..8"),
        _ => panic!("expected an invalid port"),
    }
}

#[test]
fn temperature_period_and_order() {
    for x in 0..2000u32 {
        assert_eq!(temp_v3v4_celsius(x + 12), temp_v3v4_celsius(x) + 5);
        assert!(temp_v3v4_celsius(x) <= temp_v3v4_celsius(x + 1));
    }
    // V2 counts kelvin.
    assert_eq!(temperature_celsius(PoeProto::V2, 0x01, 0x2C), 27);
    assert_eq!(temperature_celsius(PoeProto::V3, 0x02, 0xE8), 37);
    assert_eq!(temperature_celsius(PoeProto::V4, 0x00, 0x00), -273);
}

#[test]
fn firmware_version_pads_minor() {
    assert_eq!(fw_version_string(65, 21), "65.21");
    assert_eq!(fw_version_string(1, 5), "1.05");
    assert_eq!(fw_version_string(0, 0), "0.00");
    assert_eq!(fw_version_string(255, 255), "255.255");
}

#[test]
fn words_and_status_commands() {
    assert_eq!(word_of(0x12, 0x34), 0x1234);
    assert_eq!(port_state_cmd(0xd), 0x5d);
    assert_eq!(port_state_cmd(0x1), 0x51);
}

#[test]
fn decode_config_orders_fields_by_protocol() {
    // Fields from lowest: 2, 1, 0, 7.
    let v2 = decode_poe_config(PoeProto::V2, 4, 0x70, 0x12).unwrap();
    let got: Vec<(usize, String)> = v2.into_iter().map(|c| (c.port, c.config)).collect();
    assert_eq!(
        got,
        vec![
            (1, "auto".to_string()),
            (2, "force".to_string()),
            (3, "off".to_string()),
            (4, "n/a".to_string())
        ]
    );
    let v3 = decode_poe_config(PoeProto::V3, 4, 0x70, 0x12).unwrap();
    let got: Vec<(usize, String)> = v3.into_iter().map(|c| (c.port, c.config)).collect();
    assert_eq!(
        got,
        vec![
            (1, "n/a".to_string()),
            (2, "off".to_string()),
            (3, "force".to_string()),
            (4, "auto".to_string())
        ]
    );
    assert!(decode_poe_config(PoeProto::V4, 8, 0x70, 0x12).is_none());
    // Fields past the 16-bit word are 0 (off).
    let wide = decode_poe_config(PoeProto::V2, 6, 0x22, 0x22).unwrap();
    assert_eq!(wide[4].config, "off");
    assert_eq!(wide[5].port, 6);
}

#[test]
fn set_checks_value_port_and_echo() {
    match plan_poe_set(4, 1, 3) {
        Err(MtpoeError::InvalidValue(m)) => assert_eq!(m, "PoE value must be 0..2"),
        _ => panic!("expected an invalid value"),
    }
    assert!(matches!(plan_poe_set(4, 5, 2), Err(MtpoeError::InvalidPort(_))));
    assert_eq!(plan_poe_set(4, 1, 2).unwrap(), 4);
    assert!(check_set_reply(4, 2, 4, 2).is_ok());
    match check_set_reply(4, 2, 4, 1) {
        Err(MtpoeError::Spi(m)) => {
            assert_eq!(m, "set_poe response mismatch: got 0x0401, expected 0x0402")
        }
        _ => panic!("expected a mismatch"),
    }
    let r = set_poe_result(3, 1);
    assert_eq!((r.port, r.mode.as_str(), r.status.as_str()), (3, "force", "ok"));
}

#[test]
fn apply_writes_only_changed_ports() {
    // V2, 4 ports, state word fields from lowest: port1=2, port2=0, port3=1, port4=2.
    let raw: u32 = 0x2102;
    let entries = vec![(1usize, 2u8), (2, 1), (3, 1), (4, 0)];
    let (writes, report) = plan_apply(PoeProto::V2, 4, &entries, Some(raw));
    assert_eq!(writes, vec![(3u8, 1u8), (1, 0)]);
    assert_eq!(report.processed_ports, 2);
    assert!(report.readback);
    assert_eq!(report.status, "ok");
    let cfg: Vec<(usize, String)> =
        report.poe_config.into_iter().map(|c| (c.port, c.config)).collect();
    assert_eq!(
        cfg,
        vec![
            (1, "auto".to_string()),
            (2, "force".to_string()),
            (3, "force".to_string()),
            (4, "off".to_string())
        ]
    );
}

#[test]
fn apply_without_readback_writes_every_entry() {
    let entries = vec![(2usize, 2u8), (5, 0)];
    let (writes, report) = plan_apply(PoeProto::V4, 8, &entries, None);
    assert_eq!(writes, vec![(7u8, 2u8), (4, 0)]);
    assert_eq!(report.processed_ports, 2);
    assert!(!report.readback);
    assert_eq!(report.poe_config.len(), 8);
    assert_eq!(report.poe_config[0].config, "n/a");
    assert_eq!(report.poe_config[1].config, "auto");
    assert_eq!(report.poe_config[4].config, "off");
}

#[test]
fn apply_on_v3_reads_reversed_fields_and_skips_matches() {
    // V3, 4 ports: port p sits at shift (4 - p) * 4.
    let raw: u32 = 0x2102; // port4=2, port3=0, port2=1, port1=2
    let entries = vec![(1usize, 2u8), (2, 1), (3, 0), (4, 2)];
    let (writes, report) = plan_apply(PoeProto::V3, 4, &entries, Some(raw));
    assert!(writes.is_empty());
    assert_eq!(report.processed_ports, 0);
}
