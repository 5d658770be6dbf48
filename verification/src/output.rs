//! Report records and their one-line (or one-block) text rendering.

use vstd::prelude::*;
use vstd::string::StringExecFns;
use crate::text::{chars_eq, chars_of, dec, dec_int, hex4_upper, pad_right, push_dec, push_dec_int, push_hex4_upper, push_padded, push_str, string_from_chars, string_of, trim_end, trim_end_index};

verus! {

/// Firmware version of the controller, as "major.minor".
pub struct FwVersion {
    pub fw_version: String,
}

/// Controller temperature in degrees Celsius.
pub struct Temperature {
    pub temperature_c: i32,
}

/// The configured mode of one port (1-based).
pub struct PortConfig {
    pub port: usize,
    pub config: String,
}

/// Live status of a port: the current it delivers, or a named state with the
/// low 15 bits of its status word.
pub enum PortStatusValue {
    /// Active port: current in mA.
    Current(u32),
    /// Inactive port: state name and code; `verified` is false for codes not
    /// confirmed on hardware.
    State { name: String, code: u16, verified: bool },
}

/// Result of setting one port.
pub struct SetPoeResult {
    pub port: usize,
    pub mode: String,
    pub status: String,
}

/// Result of seeding the configuration.
pub struct SetupResult {
    pub ports: usize,
    pub status: String,
}

/// Result of applying the configuration.
pub struct LoadUciResult {
    pub status: String,
    pub processed_ports: usize,
    /// Whether the on-chip state could be read back before writing. False on V4,
    /// where every configured port is written and counted.
    pub readback: bool,
    pub poe_config: Vec<PortConfig>,
}

/// Result of a probe: the framed request, the raw reply and the data word.
pub struct ProbeResult {
    pub action: String,
    pub cmd: String,
    pub b1: u8,
    pub b2: u8,
    pub tx: String,
    pub rx: String,
    pub data_hex: String,
    pub data_dec: u16,
}

/// Result of sending raw bytes.
pub struct RawSendResult {
    pub action: String,
    pub tx: String,
    pub rx: String,
}

/// Version of this tool.
pub struct ToolVersion {
    pub version: String,
}

/// One port line of a listing: its number, status, and the already rendered
/// voltage/power suffix (empty when the port reports none).
pub struct PortRow {
    pub port: usize,
    pub status: PortStatusValue,
    pub power: String,
}

/// Records that render themselves as compact text.
pub trait Pretty {
    fn pretty(&self) -> String;
}

/// The identity on booleans (a field is left out of JSON when it is true).
pub fn is_true(b: &bool) -> (r: bool)
    ensures
        r == *b,
{
    *b
}

/// The word shown for a port status.
pub open spec fn status_text(v: PortStatusValue) -> Seq<char> {
    match v {
        PortStatusValue::State { name, code, verified } => if name@ == "unknown"@ {
            "unknown (0x"@ + hex4_upper(0x8000u16 | code) + ")"@
        } else if !verified {
            name@ + " (untested)"@
        } else {
            name@
        },
        PortStatusValue::Current(ma) => dec(ma as nat) + " mA"@,
    }
}

/// Renders a port status as a word.
pub fn status_word(v: &PortStatusValue) -> (s: String)
    ensures
        s@ == status_text(*v),
{
    match v {
        PortStatusValue::State { name, code, verified } => {
            let nm: Vec<char> = chars_of(name.as_str());
            if chars_eq(nm.as_slice(), "unknown") {
                let mut s: String = string_of("unknown (0x");
                push_hex4_upper(&mut s, 0x8000u16 | *code);
                push_str(&mut s, ")");
                s
            } else if !*verified {
                let mut s: String = string_of(name.as_str());
                push_str(&mut s, " (untested)");
                s
            } else {
                string_of(name.as_str())
            }
        },
        PortStatusValue::Current(ma) => {
            let mut s: String = String::new();
            push_dec(&mut s, *ma as u64);
            push_str(&mut s, " mA");
            s
        },
    }
}

/// The configured mode of the first entry for `port`, if any.
pub open spec fn find_config(cfgs: Seq<PortConfig>, port: usize) -> Option<Seq<char>>
    decreases cfgs.len(),
{
    if cfgs.len() == 0 {
        None
    } else if cfgs[0].port == port {
        Some(cfgs[0].config@)
    } else {
        find_config(cfgs.drop_first(), port)
    }
}

/// The configured mode for `port` in an optional configuration list.
pub open spec fn config_of(config: Option<Seq<PortConfig>>, port: usize) -> Option<Seq<char>> {
    match config {
        Some(cfgs) => find_config(cfgs, port),
        None => None,
    }
}

/// One line of a port listing.
pub open spec fn port_line(config: Option<Seq<PortConfig>>, row: PortRow) -> Seq<char> {
    match config_of(config, row.port) {
        Some(c) => "  "@ + dec(row.port as nat) + "  "@ + pad_right(c, 6) + " "@ + status_text(
            row.status,
        ) + row.power@ + "\n"@,
        None => "  "@ + dec(row.port as nat) + "  "@ + status_text(row.status) + row.power@ + "\n"@,
    }
}

/// All lines of a port listing, in row order.
pub open spec fn port_lines(config: Option<Seq<PortConfig>>, rows: Seq<PortRow>) -> Seq<char>
    decreases rows.len(),
{
    if rows.len() == 0 {
        Seq::empty()
    } else {
        port_lines(config, rows.drop_last()) + port_line(config, rows.last())
    }
}

/// The view of an optional configuration list.
pub open spec fn config_view(config: &Option<Vec<PortConfig>>) -> Option<Seq<PortConfig>> {
    match config {
        Some(v) => Some(v@),
        None => None,
    }
}

/// Finds the configured mode for `port`.
fn lookup_config(cfgs: &Vec<PortConfig>, port: usize) -> (r: Option<usize>)
    ensures
        match find_config(cfgs@, port) {
            Some(c) => r matches Some(j) && j < cfgs@.len() && cfgs@[j as int].config@ == c,
            None => r is None,
        },
{
    let mut i: usize = 0;
    assert(cfgs@.subrange(0, cfgs@.len() as int) =~= cfgs@);
    while i < cfgs.len()
        invariant
            i <= cfgs@.len(),
            find_config(cfgs@, port) == find_config(cfgs@.subrange(i as int, cfgs@.len() as int), port),
        decreases cfgs@.len() - i,
    {
        assert(cfgs@.subrange(i as int, cfgs@.len() as int).drop_first() =~= cfgs@.subrange(i + 1, cfgs@.len() as int));
        if cfgs[i].port == port {
            return Some(i);
        }
        i = i + 1;
    }
    None
}

/// Renders the indented per-port lines shared by the status and port listings:
/// one line per row, with the configured mode padded to six columns when the
/// configuration names the port, and trailing whitespace removed at the end.
pub fn render_ports(config: &Option<Vec<PortConfig>>, rows: &[PortRow]) -> (s: String)
    ensures
        s@ == trim_end(port_lines(config_view(config), rows@)),
{
    let mut out: String = String::new();
    let mut i: usize = 0;
    while i < rows.len()
        invariant
            i <= rows@.len(),
            out@ == port_lines(config_view(config), rows@.subrange(0, i as int)),
        decreases rows@.len() - i,
    {
        let row: &PortRow = &rows[i];
        let found: Option<usize> = match config {
            Some(cfgs) => lookup_config(cfgs, row.port),
            None => None,
        };
        let ghost before = out@;
        match found {
            Some(j) => {
                let cfgs: &Vec<PortConfig> = match config {
                    Some(c) => c,
                    None => { proof { assert(false); } return String::new(); },
                };
                push_str(&mut out, "  ");
                push_dec(&mut out, row.port as u64);
                push_str(&mut out, "  ");
                push_padded(&mut out, cfgs[j].config.as_str(), 6);
                push_str(&mut out, " ");
                let w: String = status_word(&row.status);
                push_str(&mut out, w.as_str());
                push_str(&mut out, row.power.as_str());
                push_str(&mut out, "\n");
            },
            None => {
                push_str(&mut out, "  ");
                push_dec(&mut out, row.port as u64);
                push_str(&mut out, "  ");
                let w: String = status_word(&row.status);
                push_str(&mut out, w.as_str());
                push_str(&mut out, row.power.as_str());
                push_str(&mut out, "\n");
            },
        }
        assert(rows@.subrange(0, i + 1).drop_last() =~= rows@.subrange(0, i as int));
        assert(out@ =~= before + port_line(config_view(config), rows@[i as int]));
        i = i + 1;
    }
    assert(rows@.subrange(0, rows@.len() as int) =~= rows@);
    let all: Vec<char> = chars_of(out.as_str());
    let n: usize = all.len();
    let end: usize = trim_end_index(all.as_slice(), 0, n);
    assert(all@.subrange(0, n as int) =~= all@);
    string_from_chars(all.as_slice(), 0, end)
}

/// The line shown for a single port: its number, status word and the rendered
/// voltage/power suffix, then its configured mode in brackets when one is known.
pub open spec fn port_detail_text(port: usize, status: PortStatusValue, power: Seq<char>, config: Option<Seq<char>>) -> Seq<char> {
    match config {
        Some(c) => "port "@ + dec(port as nat) + ": "@ + status_text(status) + power + " ["@ + c + "]"@,
        None => "port "@ + dec(port as nat) + ": "@ + status_text(status) + power,
    }
}

/// Renders the line shown for a single port.
pub fn render_port_detail(port: usize, status: &PortStatusValue, power: &str, config: &Option<String>) -> (s: String)
    ensures
        s@ == port_detail_text(port, *status, power@, match config {
            Some(c) => Some(c@),
            None => None,
        }),
{
    let mut s: String = string_of("port ");
    push_dec(&mut s, port as u64);
    push_str(&mut s, ": ");
    let w: String = status_word(status);
    push_str(&mut s, w.as_str());
    push_str(&mut s, power);
    match config {
        Some(c) => {
            push_str(&mut s, " [");
            push_str(&mut s, c.as_str());
            push_str(&mut s, "]");
        },
        None => {},
    }
    s
}

/// The header of the full status report: firmware, the rendered supply voltage
/// and the temperature, each after a label padded to thirteen columns, then the
/// line that opens the port listing.
pub open spec fn status_header_text(fw: Seq<char>, voltage: Seq<char>, temperature_c: i32) -> Seq<char> {
    pad_right("firmware:"@, 13) + fw + "\n"@
        + pad_right("voltage:"@, 13) + voltage + " V\n"@
        + pad_right("temperature:"@, 13) + dec_int(temperature_c as int) + " °C\n"@
        + "ports:\n"@
}

/// Renders the full status report: the header, then the port listing.
pub fn render_status(
    fw: &str,
    voltage: &str,
    temperature_c: i32,
    config: &Option<Vec<PortConfig>>,
    rows: &[PortRow],
) -> (s: String)
    ensures
        s@ == status_header_text(fw@, voltage@, temperature_c) + trim_end(port_lines(config_view(config), rows@)),
{
    let mut s: String = String::new();
    push_padded(&mut s, "firmware:", 13);
    push_str(&mut s, fw);
    push_str(&mut s, "\n");
    push_padded(&mut s, "voltage:", 13);
    push_str(&mut s, voltage);
    push_str(&mut s, " V\n");
    push_padded(&mut s, "temperature:", 13);
    push_dec_int(&mut s, temperature_c as i64);
    push_str(&mut s, " °C\n");
    push_str(&mut s, "ports:\n");
    let ports: String = render_ports(config, rows);
    push_str(&mut s, ports.as_str());
    s
}

impl Pretty for FwVersion {
    fn pretty(&self) -> (s: String)
        ensures
            s@ == "firmware: "@ + self.fw_version@,
    {
        let mut s: String = string_of("firmware: ");
        push_str(&mut s, self.fw_version.as_str());
        s
    }
}

impl Pretty for Temperature {
    fn pretty(&self) -> (s: String)
        ensures
            s@ == "temperature: "@ + dec_int(self.temperature_c as int) + " °C"@,
    {
        let mut s: String = string_of("temperature: ");
        push_dec_int(&mut s, self.temperature_c as i64);
        push_str(&mut s, " °C");
        s
    }
}

impl Pretty for SetPoeResult {
    fn pretty(&self) -> (s: String)
        ensures
            s@ == "port "@ + dec(self.port as nat) + " → "@ + self.mode@,
    {
        let mut s: String = string_of("port ");
        push_dec(&mut s, self.port as u64);
        push_str(&mut s, " → ");
        push_str(&mut s, self.mode.as_str());
        s
    }
}

impl Pretty for SetupResult {
    fn pretty(&self) -> (s: String)
        ensures
            self.ports == 0 ==> s@ == "already configured"@,
            self.ports != 0 ==> s@ == "configured "@ + dec(self.ports as nat) + " ports (auto)"@,
    {
        if self.ports == 0 {
            string_of("already configured")
        } else {
            let mut s: String = string_of("configured ");
            push_dec(&mut s, self.ports as u64);
            push_str(&mut s, " ports (auto)");
            s
        }
    }
}

impl Pretty for LoadUciResult {
    fn pretty(&self) -> (s: String)
        ensures
            s@ == "applied "@ + dec(self.processed_ports as nat) + " port(s) (readback: "@ + (if self.readback {
                "yes"@
            } else {
                "no"@
            }) + ")"@,
    {
        let mut s: String = string_of("applied ");
        push_dec(&mut s, self.processed_ports as u64);
        push_str(&mut s, " port(s) (readback: ");
        if self.readback {
            push_str(&mut s, "yes");
        } else {
            push_str(&mut s, "no");
        }
        push_str(&mut s, ")");
        s
    }
}

impl Pretty for ProbeResult {
    fn pretty(&self) -> (s: String)
        ensures
            s@ == "cmd "@ + self.cmd@ + " b1 "@ + dec(self.b1 as nat) + " b2 "@ + dec(self.b2 as nat)
                + "\ntx "@ + self.tx@ + "\nrx "@ + self.rx@ + "\ndata "@ + self.data_hex@ + " ("@ + dec(
                self.data_dec as nat,
            ) + ")"@,
    {
        let mut s: String = string_of("cmd ");
        push_str(&mut s, self.cmd.as_str());
        push_str(&mut s, " b1 ");
        push_dec(&mut s, self.b1 as u64);
        push_str(&mut s, " b2 ");
        push_dec(&mut s, self.b2 as u64);
        push_str(&mut s, "\ntx ");
        push_str(&mut s, self.tx.as_str());
        push_str(&mut s, "\nrx ");
        push_str(&mut s, self.rx.as_str());
        push_str(&mut s, "\ndata ");
        push_str(&mut s, self.data_hex.as_str());
        push_str(&mut s, " (");
        push_dec(&mut s, self.data_dec as u64);
        push_str(&mut s, ")");
        s
    }
}

impl Pretty for ToolVersion {
    fn pretty(&self) -> (s: String)
        ensures
            s@ == "mtpoe "@ + self.version@,
    {
        let mut s: String = string_of("mtpoe ");
        push_str(&mut s, self.version.as_str());
        s
    }
}

} // verus!
