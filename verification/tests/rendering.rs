use mtpoe::error::MtpoeError;
use mtpoe::output::{
    is_true, render_port_detail, render_ports, render_status, status_word, FwVersion, LoadUciResult, PortConfig, PortRow,
    PortStatusValue, Pretty, ProbeResult, SetPoeResult, SetupResult, Temperature, ToolVersion,
};

#[test]
fn pretty_single_values() {
    assert_eq!(
        FwVersion {
            fw_version: "65.21".into()
        }
        .pretty(),
        "firmware: 65.21"
    );
    assert_eq!(
        Temperature { temperature_c: 31 }.pretty(),
        "temperature: 31 °C"
    );
}

fn row(port: usize, status: PortStatusValue) -> PortRow {
    PortRow { port, status, power: String::new() }
}

#[test]
fn pretty_port_list_with_config() {
    let config = Some(vec![
        PortConfig {
            port: 1,
            config: "auto".into(),
        },
        PortConfig {
            port: 2,
            config: "off".into(),
        },
    ]);
    let rows = vec![
        row(1, PortStatusValue::Current(97)),
        row(
            2,
            PortStatusValue::State { name: "disabled".into(), code: 0, verified: true },
        ),
    ];
    assert_eq!(render_ports(&config, &rows), "  1  auto   97 mA\n  2  off    disabled");
}

#[test]
fn pretty_port_list_without_config() {
    let rows = vec![row(
        1,
        PortStatusValue::State { name: "searching".into(), code: 1, verified: true },
    )];
    assert_eq!(render_ports(&None, &rows), "  1  searching");
}

#[test]
fn port_listing_uses_power_suffix_and_first_config() {
    let config = Some(vec![
        PortConfig { port: 3, config: "force".into() },
        PortConfig { port: 3, config: "off".into() },
    ]);
    let rows = vec![
        PortRow {
            port: 3,
            status: PortStatusValue::Current(83),
            power: "  48.76 V  4.05 W".into(),
        },
        PortRow {
            port: 4,
            status: PortStatusValue::Current(0),
            power: String::new(),
        },
    ];
    assert_eq!(
        render_ports(&config, &rows),
        "  3  force  83 mA  48.76 V  4.05 W\n  4  0 mA"
    );
    assert_eq!(render_ports(&None, &[]), "");
}

#[test]
fn status_words() {
    assert_eq!(status_word(&PortStatusValue::Current(97)), "97 mA");
    assert_eq!(
        status_word(&PortStatusValue::State { name: "unknown".into(), code: 0x12, verified: true }),
        "unknown (0x8012)"
    );
    assert_eq!(
        status_word(&PortStatusValue::State { name: "short".into(), code: 0x0A, verified: false }),
        "short (untested)"
    );
    assert_eq!(
        status_word(&PortStatusValue::State { name: "on".into(), code: 0x0F, verified: true }),
        "on"
    );
    assert!(is_true(&true));
    assert!(!is_true(&false));
}

#[test]
fn pretty_reports() {
    assert_eq!(Temperature { temperature_c: -5 }.pretty(), "temperature: -5 °C");
    assert_eq!(
        SetPoeResult { port: 3, mode: "force".into(), status: "ok".into() }.pretty(),
        "port 3 → force"
    );
    assert_eq!(SetupResult { ports: 0, status: "ok".into() }.pretty(), "already configured");
    assert_eq!(SetupResult { ports: 8, status: "ok".into() }.pretty(), "configured 8 ports (auto)");
    assert_eq!(
        LoadUciResult { status: "ok".into(), processed_ports: 2, readback: true, poe_config: vec![] }
            .pretty(),
        "applied 2 port(s) (readback: yes)"
    );
    assert_eq!(
        LoadUciResult { status: "ok".into(), processed_ports: 8, readback: false, poe_config: vec![] }
            .pretty(),
        "applied 8 port(s) (readback: no)"
    );
    assert_eq!(ToolVersion { version: "0.1.1".into() }.pretty(), "mtpoe 0.1.1");
    let probe = ProbeResult {
        action: "probe".into(),
        cmd: "0x41".into(),
        b1: 0,
        b2: 7,
        tx: "0x41".into(),
        rx: "0x00".into(),
        data_hex: "0x4115".into(),
        data_dec: 16661,
    };
    assert_eq!(probe.pretty(), "cmd 0x41 b1 0 b2 7\ntx 0x41\nrx 0x00\ndata 0x4115 (16661)");
}

#[test]
fn error_descriptions_and_fatality() {
    let e = MtpoeError::Spi("ioctl failed".into());
    assert_eq!(e.describe(), "SPI error: ioctl failed");
    assert!(!e.is_fatal());
    assert!(!MtpoeError::SpiCrc("x".into()).is_fatal());
    assert!(!MtpoeError::SpiCmd("x".into()).is_fatal());
    let e = MtpoeError::InvalidPort("9 — must be 1..8".into());
    assert_eq!(e.describe(), "invalid port: 9 — must be 1..8");
    assert!(e.is_fatal());
    assert!(MtpoeError::Uci("x".into()).is_fatal());
    assert!(MtpoeError::BoardDetection("x".into()).is_fatal());
    assert!(MtpoeError::InvalidValue("x".into()).is_fatal());
    assert_eq!(MtpoeError::Uci("x".into()).describe(), "UCI error: x");
    assert_eq!(MtpoeError::BoardDetection("x".into()).describe(), "board detection failed: x");
    assert_eq!(MtpoeError::SpiCrc("x".into()).describe(), "SPI CRC error: x");
    assert_eq!(MtpoeError::SpiCmd("x".into()).describe(), "SPI command mismatch: x");
    assert_eq!(MtpoeError::InvalidValue("x".into()).describe(), "invalid value: x");
}

#[test]
fn single_port_line_with_and_without_config() {
    assert_eq!(
        render_port_detail(
            3,
            &PortStatusValue::Current(120),
            "  48.00 V  5.76 W",
            &Some("auto".to_string())
        ),
        "port 3: 120 mA  48.00 V  5.76 W [auto]"
    );
    assert_eq!(
        render_port_detail(
            1,
            &PortStatusValue::State { name: "disabled".into(), code: 2, verified: true },
            "",
            &None
        ),
        "port 1: disabled"
    );
    assert_eq!(
        render_port_detail(
            2,
            &PortStatusValue::State { name: "unknown".into(), code: 0x12, verified: false },
            "",
            &Some("off".to_string())
        ),
        "port 2: unknown (0x8012) [off]"
    );
}

#[test]
fn full_status_header_and_ports() {
    let config = Some(vec![PortConfig { port: 1, config: "auto".into() }]);
    let rows = vec![row(1, PortStatusValue::Current(97))];
    assert_eq!(
        render_status("65.21", "48.12", -3, &config, &rows),
        "firmware:    65.21\nvoltage:     48.12 V\ntemperature: -3 °C\nports:\n  1  auto   97 mA"
    );
}
