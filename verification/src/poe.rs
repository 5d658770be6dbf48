//! Port modes, port numbering, and the decoding of controller replies.

use vstd::prelude::*;
use crate::error::MtpoeError;
use crate::output::{LoadUciResult, PortConfig, PortStatusValue, SetPoeResult};
use vstd::arithmetic::power2::{pow2, lemma_pow2_adds, lemma_pow2_pos, lemma2_to64};
use vstd::arithmetic::div_mod::lemma_div_denominator;
use vstd::bits::lemma_u32_shr_is_div;
use crate::spi::{PoeProto, POE_CMD_PORT_STATE_BASE};
use crate::text::{chars_eq, chars_of, dec, dec2, hex2, push_dec, push_dec2, push_hex2, push_str, string_of};

verus! {

/// The mode a port value names: 0 is off, 1 is force (power without
/// negotiation), 2 is auto (802.3af/at); anything else is unknown.
pub open spec fn config_word(val: u8) -> Seq<char> {
    if val == 0 {
        "off"@
    } else if val == 1 {
        "force"@
    } else if val == 2 {
        "auto"@
    } else {
        "n/a"@
    }
}

/// The port value a user's word names: `off`/`0`, `on`/`force`/`1`, `auto`/`2`.
pub open spec fn poe_value_of(s: Seq<char>) -> Option<u8> {
    if s == "off"@ || s == "0"@ {
        Some(0u8)
    } else if s == "on"@ || s == "force"@ || s == "1"@ {
        Some(1u8)
    } else if s == "auto"@ || s == "2"@ {
        Some(2u8)
    } else {
        None
    }
}

/// Reads a port mode given by name or digit.
pub fn parse_poe_value(s: &str) -> (r: Result<u8, MtpoeError>)
    ensures
        match poe_value_of(s@) {
            Some(v) => r == Ok::<u8, MtpoeError>(v),
            None => r matches Err(MtpoeError::InvalidValue(m)) && m@ == "'"@ + s@
                + "' — must be off/on/auto or 0/1/2"@,
        },
{
    let v: Vec<char> = chars_of(s);
    match poe_value_from_chars(v.as_slice()) {
        Some(x) => Ok(x),
        None => {
            let mut m: String = string_of("'");
            push_str(&mut m, s);
            push_str(&mut m, "' — must be off/on/auto or 0/1/2");
            Err(MtpoeError::InvalidValue(m))
        },
    }
}

/// The port value the word `w` names, if any.
pub fn poe_value_from_chars(w: &[char]) -> (r: Option<u8>)
    ensures
        r == poe_value_of(w@),
{
    if chars_eq(w, "off") || chars_eq(w, "0") {
        Some(0)
    } else if chars_eq(w, "on") || chars_eq(w, "force") || chars_eq(w, "1") {
        Some(1)
    } else if chars_eq(w, "auto") || chars_eq(w, "2") {
        Some(2)
    } else {
        None
    }
}

/// The name of a port value.
pub fn poe_config_str(val: u8) -> (s: String)
    ensures
        s@ == config_word(val),
{
    if val == 0 {
        string_of("off")
    } else if val == 1 {
        string_of("force")
    } else if val == 2 {
        string_of("auto")
    } else {
        string_of("n/a")
    }
}

/// Every port value the tool writes reads back as itself from its name.
pub proof fn lemma_config_word_round_trip(val: u8)
    requires
        val <= 2,
    ensures
        poe_value_of(config_word(val)) == Some(val),
{
    reveal_strlit("off");
    reveal_strlit("0");
    reveal_strlit("on");
    reveal_strlit("force");
    reveal_strlit("1");
    reveal_strlit("auto");
    reveal_strlit("2");
    if val == 1 {
        assert("force"@[0] != "off"@[0]);
        assert("force"@.len() != "0"@.len());
    } else if val == 2 {
        assert("auto"@[0] != "off"@[0]);
        assert("auto"@.len() != "0"@.len());
        assert("auto"@.len() != "on"@.len());
        assert("auto"@[0] != "force"@[0]);
        assert("auto"@.len() != "1"@.len());
    }
}

/// Decodes a port status word. An active port reports its current in mA
/// (flag bit clear); otherwise the flag bit is set and the low bits name the
/// state: 0x01 auto, 0x0A short, 0x0F on, anything else off.
pub fn poe_status_value(raw: u16) -> (v: PortStatusValue)
    ensures
        raw < 0x8000 ==> v == PortStatusValue::Current(raw as u32),
        raw >= 0x8000 ==> (v matches PortStatusValue::State { name, code, verified } && code == raw
            - 0x8000 && verified && name@ == (if raw == 0x8001 {
            "auto"@
        } else if raw == 0x800A {
            "short"@
        } else if raw == 0x800F {
            "on"@
        } else {
            "off"@
        })),
{
    assert((raw & 0x8000u16 != 0) == (raw >= 0x8000)) by (bit_vector);
    if raw == 0x8001 {
        PortStatusValue::State { name: string_of("auto"), code: 1, verified: true }
    } else if raw == 0x800A {
        PortStatusValue::State { name: string_of("short"), code: 0x0A, verified: true }
    } else if raw == 0x800F {
        PortStatusValue::State { name: string_of("on"), code: 0x0F, verified: true }
    } else if raw & 0x8000 != 0 {
        PortStatusValue::State { name: string_of("off"), code: raw - 0x8000, verified: true }
    } else {
        PortStatusValue::Current(raw as u32)
    }
}

/// The hardware number of chassis port `user_port` (1-based): the hardware
/// numbers the ports in the reverse order.
pub open spec fn hw_port_of(ports_num: nat, user_port: nat) -> u8 {
    (ports_num - user_port + 1) as u8
}

/// Maps a chassis port (1..=ports_num) to the port argument of the SPI
/// command, refusing a port out of range.
pub fn hw_port(ports_num: usize, user_port: usize) -> (r: Result<u8, MtpoeError>)
    ensures
        1 <= user_port <= ports_num ==> r == Ok::<u8, MtpoeError>(hw_port_of(ports_num as nat, user_port as nat)),
        !(1 <= user_port <= ports_num) ==> (r matches Err(MtpoeError::InvalidPort(m)) && m@ == dec(
            user_port as nat,
        ) + " — must be 1.."@ + dec(ports_num as nat)),
{
    if user_port < 1 || user_port > ports_num {
        let mut m: String = String::new();
        push_dec(&mut m, user_port as u64);
        push_str(&mut m, " — must be 1..");
        push_dec(&mut m, ports_num as u64);
        return Err(MtpoeError::InvalidPort(m));
    }
    Ok((ports_num - user_port + 1) as u8)
}

/// On a board of at most 255 ports, mapping twice gives the chassis port back.
pub proof fn lemma_hw_port_involution(ports_num: nat, user_port: nat)
    requires
        1 <= user_port <= ports_num <= 255,
    ensures
        1 <= hw_port_of(ports_num, user_port) <= ports_num,
        hw_port_of(ports_num, hw_port_of(ports_num, user_port) as nat) == user_port,
{
}

/// The 16-bit word of a reply's two data bytes, high byte first.
pub open spec fn be16(hi: u8, lo: u8) -> nat {
    hi as nat * 256 + lo as nat
}

/// Combines a reply's two data bytes, high byte first.
pub fn word_of(hi: u8, lo: u8) -> (w: u16)
    ensures
        w as nat == be16(hi, lo),
{
    (hi as u16) * 256 + (lo as u16)
}

/// The step added within a block of twelve counts.
pub open spec fn temp_bump(o: nat) -> int {
    if o > 9 {
        4
    } else if o > 6 {
        3
    } else if o > 4 {
        2
    } else if o > 2 {
        1
    } else {
        0
    }
}

/// V3/V4 temperature: every block of twelve counts is five degrees, from -273 °C.
pub open spec fn temp_v3v4(x: nat) -> int {
    (x / 12) as int * 5 - 273 + temp_bump(x % 12)
}

/// Converts a V3/V4 temperature reading to degrees Celsius.
pub fn temp_v3v4_celsius(x: u32) -> (c: i32)
    ensures
        c == temp_v3v4(x as nat),
{
    let n: u32 = x / 12;
    let o: u32 = x - n * 12;
    let mut c: i32 = (n * 5) as i32 - 273;
    if o > 9 {
        c += 4;
    } else if o > 6 {
        c += 3;
    } else if o > 4 {
        c += 2;
    } else if o > 2 {
        c += 1;
    }
    c
}

/// Twelve more counts are exactly five degrees more.
pub proof fn lemma_temp_period(x: nat)
    ensures
        temp_v3v4(x + 12) == temp_v3v4(x) + 5,
{
    assert((x + 12) / 12 == x / 12 + 1);
    assert((x + 12) % 12 == x % 12);
}

/// The V3/V4 conversion never goes down as the reading goes up.
pub proof fn lemma_temp_monotonic(x: nat, y: nat)
    requires
        x <= y,
    ensures
        temp_v3v4(x) <= temp_v3v4(y),
{
    let a = x / 12;
    let b = y / 12;
    assert(x == 12 * a + x % 12);
    assert(y == 12 * b + y % 12);
    assert(a <= b);
}

/// Temperature of a reading in degrees Celsius: V2 counts kelvin, V3/V4 use
/// the block formula.
pub open spec fn temperature_of(proto: PoeProto, hi: u8, lo: u8) -> int {
    match proto {
        PoeProto::V2 => be16(hi, lo) - 273,
        _ => temp_v3v4(be16(hi, lo)),
    }
}

/// The temperature of a reply, for every pair of bytes: with `x` the reading
/// (high byte first), V2 gives `x - 273` and V3 and V4 alike give five degrees
/// per block of twelve counts from -273, plus 0,0,0,1,1,2,2,3,3,3,4,4 by the
/// position inside the block.
pub proof fn lemma_temperature_by_proto(hi: u8, lo: u8)
    ensures
        ({
            let x: int = hi as int * 256 + lo as int;
            let bump: Seq<int> = seq![0int, 0, 0, 1, 1, 2, 2, 3, 3, 3, 4, 4];
            &&& temperature_of(PoeProto::V2, hi, lo) == x - 273
            &&& temperature_of(PoeProto::V3, hi, lo) == (x / 12) * 5 - 273 + bump[x % 12]
            &&& temperature_of(PoeProto::V4, hi, lo) == (x / 12) * 5 - 273 + bump[x % 12]
            &&& temperature_of(PoeProto::V4, hi, lo) == temperature_of(PoeProto::V3, hi, lo)
        }),
{
    let x: int = hi as int * 256 + lo as int;
    let bump: Seq<int> = seq![0int, 0, 0, 1, 1, 2, 2, 3, 3, 3, 4, 4];
    assert(be16(hi, lo) == x);
    let o: int = x % 12;
    assert(0 <= o < 12);
    assert(temp_bump(o as nat) == bump[o]) by {
        if o == 0 {} else if o == 1 {} else if o == 2 {} else if o == 3 {} else if o == 4 {}
        else if o == 5 {} else if o == 6 {} else if o == 7 {} else if o == 8 {} else if o == 9 {}
        else if o == 10 {} else {}
    }
}

/// Converts a temperature reply to degrees Celsius.
pub fn temperature_celsius(proto: PoeProto, hi: u8, lo: u8) -> (c: i32)
    ensures
        c == temperature_of(proto, hi, lo),
{
    let x: u32 = (hi as u32) * 256 + (lo as u32);
    match proto {
        PoeProto::V2 => x as i32 - 273,
        PoeProto::V3 | PoeProto::V4 => temp_v3v4_celsius(x),
    }
}

/// The firmware version of a reply: major, a dot, and the minor as two digits.
pub fn fw_version_string(major: u8, minor: u8) -> (s: String)
    ensures
        s@ == dec(major as nat) + "."@ + dec2(minor as nat),
{
    let mut s: String = String::new();
    push_dec(&mut s, major as u64);
    push_str(&mut s, ".");
    push_dec2(&mut s, minor as u64);
    s
}

/// The status command of the port whose command offset is `offset`.
pub fn port_state_cmd(offset: u8) -> (cmd: u8)
    requires
        offset <= 0xAF,
    ensures
        cmd == POE_CMD_PORT_STATE_BASE + offset,
{
    POE_CMD_PORT_STATE_BASE + offset
}

/// Checks a mode change before it is sent: the value must be 0..2 and the port
/// in range; gives the hardware port to address.
pub fn plan_poe_set(ports_num: usize, user_port: usize, val: u8) -> (r: Result<u8, MtpoeError>)
    ensures
        val > 2 ==> (r matches Err(MtpoeError::InvalidValue(m)) && m@ == "PoE value must be 0..2"@),
        val <= 2 && 1 <= user_port <= ports_num ==> r == Ok::<u8, MtpoeError>(hw_port_of(ports_num as nat, user_port as nat)),
        val <= 2 && !(1 <= user_port <= ports_num) ==> (r matches Err(MtpoeError::InvalidPort(m))
            && m@ == dec(user_port as nat) + " — must be 1.."@ + dec(ports_num as nat)),
{
    if val > 2 {
        return Err(MtpoeError::InvalidValue(string_of("PoE value must be 0..2")));
    }
    hw_port(ports_num, user_port)
}

/// Checks the controller's answer to a mode change: it echoes the port and value.
pub fn check_set_reply(internal_port: u8, val: u8, hi: u8, lo: u8) -> (r: Result<(), MtpoeError>)
    ensures
        hi == internal_port && lo == val ==> r is Ok,
        !(hi == internal_port && lo == val) ==> (r matches Err(MtpoeError::Spi(m)) && m@
            == "set_poe response mismatch: got 0x"@ + hex2(hi, false) + hex2(lo, false)
            + ", expected 0x"@ + hex2(internal_port, false) + hex2(val, false)),
{
    if hi != internal_port || lo != val {
        let mut m: String = string_of("set_poe response mismatch: got 0x");
        push_hex2(&mut m, hi, false);
        push_hex2(&mut m, lo, false);
        push_str(&mut m, ", expected 0x");
        push_hex2(&mut m, internal_port, false);
        push_hex2(&mut m, val, false);
        return Err(MtpoeError::Spi(m));
    }
    Ok(())
}

/// The report of a successful mode change.
pub fn set_poe_result(user_port: usize, val: u8) -> (r: SetPoeResult)
    ensures
        r.port == user_port,
        r.mode@ == config_word(val),
        r.status@ == "ok"@,
{
    SetPoeResult { port: user_port, mode: poe_config_str(val), status: string_of("ok") }
}

/// The 4-bit field number `k` of a state word (fields past the word are 0).
pub open spec fn nibble(raw: nat, k: nat) -> nat {
    (raw / pow2(4 * k)) % 16
}

/// Which field of the state word holds the mode of chassis port `k + 1`:
/// V2 stores port 1 in the lowest field, V3 in the highest of `ports_num`.
pub open spec fn config_field(proto: PoeProto, ports_num: nat, k: nat) -> nat {
    match proto {
        PoeProto::V2 => k,
        _ => (ports_num - 1 - k) as nat,
    }
}

proof fn lemma_pow2_step(k: nat)
    ensures
        pow2(4 * (k + 1)) == pow2(4 * k) * 16,
        pow2(4 * k) > 0,
{
    lemma_pow2_adds(4 * k, 4);
    lemma2_to64();
    assert(4 * (k + 1) == 4 * k + 4);
    lemma_pow2_pos(4 * k);
}

/// Decodes the state word (the reply to the state command) into the configured
/// mode of each port, listed by chassis port. V4 controllers cannot report it.
pub fn decode_poe_config(proto: PoeProto, ports_num: usize, hi: u8, lo: u8) -> (r: Option<Vec<PortConfig>>)
    ensures
        proto == PoeProto::V4 ==> r is None,
        proto != PoeProto::V4 ==> (r matches Some(v) && v@.len() == ports_num && (forall|k: int|
            0 <= k < ports_num ==> #[trigger] v@[k].port == k + 1) && (forall|k: int|
            0 <= k < ports_num ==> #[trigger] v@[k].config@ == config_word(
                nibble(be16(hi, lo), config_field(proto, ports_num as nat, k as nat)) as u8,
            ))),
{
    if proto == PoeProto::V4 {
        return None;
    }
    let raw: u32 = (hi as u32) * 256 + (lo as u32);
    let mut x: u32 = raw;
    let mut fields: Vec<u8> = Vec::new();
    let mut i: usize = 0;
    proof {
        lemma2_to64();
        assert(4 * (0 as nat) == 0);
    }
    while i < ports_num
        invariant
            i <= ports_num,
            raw == be16(hi, lo),
            fields@.len() == i,
            x as nat == raw as nat / pow2(4 * (i as nat)),
            forall|j: int| 0 <= j < i ==> #[trigger] fields@[j] as nat == nibble(raw as nat, j as nat),
        decreases ports_num - i,
    {
        proof {
            lemma_pow2_step(i as nat);
            lemma_div_denominator(raw as int, pow2(4 * (i as nat)) as int, 16);
        }
        fields.push((x % 16) as u8);
        x = x / 16;
        i = i + 1;
    }
    let mut configs: Vec<PortConfig> = Vec::new();
    let mut k: usize = 0;
    while k < ports_num
        invariant
            k <= ports_num,
            proto != PoeProto::V4,
            raw == be16(hi, lo),
            fields@.len() == ports_num,
            forall|j: int| 0 <= j < ports_num ==> #[trigger] fields@[j] as nat == nibble(raw as nat, j as nat),
            configs@.len() == k,
            forall|j: int| 0 <= j < k ==> #[trigger] configs@[j].port == j + 1,
            forall|j: int|
                0 <= j < k ==> #[trigger] configs@[j].config@ == config_word(
                    nibble(be16(hi, lo), config_field(proto, ports_num as nat, j as nat)) as u8,
                ),
        decreases ports_num - k,
    {
        let idx: usize = match proto {
            PoeProto::V2 => k,
            _ => ports_num - k - 1,
        };
        assert(idx as nat == config_field(proto, ports_num as nat, k as nat));
        assert(fields@[idx as int] as nat == nibble(raw as nat, idx as nat));
        let ghost before = configs@;
        configs.push(PortConfig { port: k + 1, config: poe_config_str(fields[idx]) });
        assert(configs@[k as int].config@ == config_word(fields@[idx as int]));
        assert(nibble(raw as nat, idx as nat) as u8 == fields@[idx as int]);
        assert forall|j: int| 0 <= j < k + 1 implies #[trigger] configs@[j].port == j + 1 && configs@[j].config@ == config_word(
                    nibble(be16(hi, lo), config_field(proto, ports_num as nat, j as nat)) as u8) by {
            if j < k {
                assert(configs@[j] == before[j]);
                assert(before[j].port == j + 1);
            }
        }
        k = k + 1;
    }
    Some(configs)
}

/// The position of chassis port `p`'s field in the state word, in bits.
pub open spec fn apply_shift(proto: PoeProto, ports_num: nat, p: nat) -> nat {
    match proto {
        PoeProto::V2 => ((p - 1) * 4) as nat,
        PoeProto::V3 => ((ports_num - p) * 4) as nat,
        PoeProto::V4 => 0,
    }
}

/// The mode the controller reports for chassis port `p`, when the state word
/// could be read.
pub open spec fn current_value(proto: PoeProto, ports_num: nat, raw: Option<u32>, p: nat) -> Option<nat> {
    match raw {
        Some(r) => Some((r as nat / pow2(apply_shift(proto, ports_num, p))) % 16),
        None => None,
    }
}

/// Whether a configured `(port, value)` entry has to be written.
pub open spec fn needs_write(proto: PoeProto, ports_num: nat, raw: Option<u32>, e: (usize, u8)) -> bool {
    current_value(proto, ports_num, raw, e.0 as nat) != Some(e.1 as nat)
}

/// The `(hardware port, value)` writes that applying `entries` makes, in order:
/// one for each entry whose value differs from the one read back.
pub open spec fn apply_writes(proto: PoeProto, ports_num: nat, raw: Option<u32>, entries: Seq<(usize, u8)>) -> Seq<(u8, u8)>
    decreases entries.len(),
{
    if entries.len() == 0 {
        Seq::empty()
    } else {
        let w = apply_writes(proto, ports_num, raw, entries.drop_last());
        let e = entries.last();
        if needs_write(proto, ports_num, raw, e) {
            w.push((hw_port_of(ports_num, e.0 as nat), e.1))
        } else {
            w
        }
    }
}

/// The mode shown for each chassis port after applying `entries`: the last
/// value configured for it, or "n/a".
pub open spec fn apply_configs(ports_num: nat, entries: Seq<(usize, u8)>) -> Seq<Seq<char>>
    decreases entries.len(),
{
    if entries.len() == 0 {
        Seq::new(ports_num, |k: int| "n/a"@)
    } else {
        apply_configs(ports_num, entries.drop_last()).update(
            entries.last().0 - 1,
            config_word(entries.last().1),
        )
    }
}

/// The entries name ports of the board, and their fields fit in the state word.
pub open spec fn apply_entries_ok(proto: PoeProto, ports_num: nat, raw: Option<u32>, entries: Seq<(usize, u8)>) -> bool {
    forall|i: int|
        0 <= i < entries.len() ==> 1 <= #[trigger] entries[i].0 <= ports_num && (raw is Some
            ==> apply_shift(proto, ports_num, entries[i].0 as nat) < 32)
}

proof fn lemma_apply_configs_len(ports_num: nat, entries: Seq<(usize, u8)>)
    requires
        forall|i: int| 0 <= i < entries.len() ==> 1 <= #[trigger] entries[i].0 <= ports_num,
    ensures
        apply_configs(ports_num, entries).len() == ports_num,
    decreases entries.len(),
{
    if entries.len() > 0 {
        assert forall|i: int| 0 <= i < entries.drop_last().len() implies 1 <= #[trigger] entries.drop_last()[i].0 <= ports_num by {
            assert(entries.drop_last()[i] == entries[i]);
        }
        lemma_apply_configs_len(ports_num, entries.drop_last());
        assert(entries[entries.len() - 1] == entries.last());
    }
}

/// Plans applying the configured `(chassis port, value)` entries: the writes to
/// send, in order, and the report. `raw` is the state word read back before
/// writing (none on V4); an entry is written only when it differs from it.
pub fn plan_apply(proto: PoeProto, ports_num: usize, entries: &[(usize, u8)], raw: Option<u32>) -> (r: (
    Vec<(u8, u8)>,
    LoadUciResult,
))
    requires
        apply_entries_ok(proto, ports_num as nat, raw, entries@),
    ensures
        r.0@ == apply_writes(proto, ports_num as nat, raw, entries@),
        r.1.status@ == "ok"@,
        r.1.processed_ports == r.0@.len(),
        r.1.readback == raw is Some,
        r.1.poe_config@.len() == ports_num,
        forall|k: int| 0 <= k < ports_num ==> #[trigger] r.1.poe_config@[k].port == k + 1,
        forall|k: int|
            0 <= k < ports_num ==> #[trigger] r.1.poe_config@[k].config@ == apply_configs(
                ports_num as nat,
                entries@,
            )[k],
{
    let mut new_config: Vec<PortConfig> = Vec::new();
    let mut k: usize = 0;
    while k < ports_num
        invariant
            k <= ports_num,
            new_config@.len() == k,
            forall|j: int| 0 <= j < k ==> #[trigger] new_config@[j].port == j + 1,
            forall|j: int| 0 <= j < k ==> #[trigger] new_config@[j].config@ == "n/a"@,
        decreases ports_num - k,
    {
        new_config.push(PortConfig { port: k + 1, config: string_of("n/a") });
        k = k + 1;
    }
    let mut writes: Vec<(u8, u8)> = Vec::new();
    let mut processed: usize = 0;
    let mut i: usize = 0;
    assert(entries@.subrange(0, 0) =~= Seq::<(usize, u8)>::empty());
    assert(apply_configs(ports_num as nat, entries@.subrange(0, 0)) == Seq::new(ports_num as nat, |k: int| "n/a"@));
    while i < entries.len()
        invariant
            i <= entries@.len(),
            apply_entries_ok(proto, ports_num as nat, raw, entries@),
            writes@ == apply_writes(proto, ports_num as nat, raw, entries@.subrange(0, i as int)),
            processed == writes@.len(),
            processed <= i,
            new_config@.len() == ports_num,
            apply_configs(ports_num as nat, entries@.subrange(0, i as int)).len() == ports_num,
            forall|j: int| 0 <= j < ports_num ==> #[trigger] new_config@[j].port == j + 1,
            forall|j: int|
                0 <= j < ports_num ==> #[trigger] new_config@[j].config@ == apply_configs(
                    ports_num as nat,
                    entries@.subrange(0, i as int),
                )[j],
        decreases entries@.len() - i,
    {
        let (user_port, val): (usize, u8) = entries[i];
        assert(entries@[i as int] == (user_port, val));
        let ghost pre = entries@.subrange(0, i as int);
        let ghost cur = entries@.subrange(0, i + 1);
        assert(cur.drop_last() =~= pre);
        assert(cur.last() == (user_port, val));
        let current: Option<u8> = match raw {
            Some(r) => {
                let shift: u32 = match proto {
                    PoeProto::V2 => ((user_port - 1) * 4) as u32,
                    PoeProto::V3 => ((ports_num - user_port) * 4) as u32,
                    PoeProto::V4 => 0,
                };
                assert(shift as nat == apply_shift(proto, ports_num as nat, user_port as nat));
                let shifted: u32 = r >> shift;
                proof {
                    lemma_u32_shr_is_div(r, shift);
                }
                assert((shifted & 0xFu32) == shifted % 16) by (bit_vector);
                Some((shifted & 0xF) as u8)
            },
            None => None,
        };
        assert(match current {
            Some(c) => current_value(proto, ports_num as nat, raw, user_port as nat) == Some(c as nat),
            None => current_value(proto, ports_num as nat, raw, user_port as nat) is None,
        });
        if current != Some(val) {
            let internal_port: u8 = match hw_port(ports_num, user_port) {
                Ok(p) => p,
                Err(_) => {
                    proof {
                        assert(false);
                    }
                    0
                },
            };
            writes.push((internal_port, val));
            processed = processed + 1;
        }
        proof {
            assert forall|j: int| 0 <= j < cur.len() implies 1 <= #[trigger] cur[j].0 <= ports_num by {
                assert(cur[j] == entries@[j]);
            }
            lemma_apply_configs_len(ports_num as nat, cur);
        }
        let ghost before = new_config@;
        new_config.set(user_port - 1, PortConfig { port: user_port, config: poe_config_str(val) });
        proof {
            let ac = apply_configs(ports_num as nat, cur);
            assert(ac == apply_configs(ports_num as nat, pre).update(user_port - 1, config_word(val)));
            assert forall|j: int| 0 <= j < ports_num implies #[trigger] new_config@[j].port == j + 1
                && new_config@[j].config@ == ac[j] by {
                if j != user_port - 1 {
                    assert(new_config@[j] == before[j]);
                    assert(before[j].port == j + 1);
                    assert(ac[j] == apply_configs(ports_num as nat, pre)[j]);
                } else {
                    assert(new_config@[j].port == user_port);
                    assert(new_config@[j].config@ == config_word(val));
                    assert(ac[j] == config_word(val));
                }
            }
        }
        i = i + 1;
    }
    assert(entries@.subrange(0, entries@.len() as int) =~= entries@);
    let report: LoadUciResult = LoadUciResult {
        status: string_of("ok"),
        processed_ports: processed,
        readback: raw.is_some(),
        poe_config: new_config,
    };
    (writes, report)
}

/// Without a readback (V4) every configured entry is written.
pub proof fn lemma_apply_without_readback_writes_all(proto: PoeProto, ports_num: nat, entries: Seq<(usize, u8)>)
    ensures
        apply_writes(proto, ports_num, None, entries).len() == entries.len(),
    decreases entries.len(),
{
    if entries.len() > 0 {
        lemma_apply_without_readback_writes_all(proto, ports_num, entries.drop_last());
    }
}

/// When the controller already holds every configured value, applying writes nothing.
pub proof fn lemma_apply_unchanged_writes_nothing(proto: PoeProto, ports_num: nat, raw: u32, entries: Seq<(usize, u8)>)
    requires
        forall|i: int|
            0 <= i < entries.len() ==> current_value(proto, ports_num, Some(raw), #[trigger] entries[i].0 as nat)
                == Some(entries[i].1 as nat),
    ensures
        apply_writes(proto, ports_num, Some(raw), entries) == Seq::<(u8, u8)>::empty(),
    decreases entries.len(),
{
    if entries.len() > 0 {
        let e = entries.last();
        assert(entries[entries.len() - 1] == e);
        assert forall|i: int| 0 <= i < entries.drop_last().len() implies current_value(
            proto,
            ports_num,
            Some(raw),
            #[trigger] entries.drop_last()[i].0 as nat,
        ) == Some(entries.drop_last()[i].1 as nat) by {
            assert(entries.drop_last()[i] == entries[i]);
        }
        lemma_apply_unchanged_writes_nothing(proto, ports_num, raw, entries.drop_last());
    }
}

/// Whether a configured `(port, value)` entry differs from the 4-bit field of
/// the state word `raw` for its port: port `p`'s field starts at bit `4(p - 1)`
/// on V2 and `4(ports_num - p)` on V3 (bit 0 on V4).
pub open spec fn differs_from_state(proto: PoeProto, ports_num: nat, raw: u32, e: (usize, u8)) -> bool {
    let shift: nat = match proto {
        PoeProto::V2 => ((e.0 - 1) * 4) as nat,
        PoeProto::V3 => ((ports_num - e.0) * 4) as nat,
        PoeProto::V4 => 0,
    };
    (raw as nat / pow2(shift)) % 16 != e.1 as nat
}

/// With a readback, applying writes exactly the entries whose value differs from
/// their port's field of the state word, in the configured order, each as
/// `(ports_num - port + 1, value)`: a change between any two modes is written,
/// and the number of writes is the number of such entries.
pub proof fn lemma_apply_writes_changed_entries(proto: PoeProto, ports_num: nat, raw: u32, entries: Seq<(usize, u8)>)
    ensures
        apply_writes(proto, ports_num, Some(raw), entries) == entries.filter(
            |e: (usize, u8)| differs_from_state(proto, ports_num, raw, e),
        ).map_values(|e: (usize, u8)| (((ports_num - e.0 + 1) as u8), e.1)),
        apply_writes(proto, ports_num, Some(raw), entries).len() == entries.filter(
            |e: (usize, u8)| differs_from_state(proto, ports_num, raw, e),
        ).len(),
    decreases entries.len(),
{
    let pred = |e: (usize, u8)| differs_from_state(proto, ports_num, raw, e);
    let f = |e: (usize, u8)| (((ports_num - e.0 + 1) as u8), e.1);
    reveal_with_fuel(Seq::filter, 1);
    if entries.len() > 0 {
        lemma_apply_writes_changed_entries(proto, ports_num, raw, entries.drop_last());
        let prev = entries.drop_last().filter(pred);
        let e = entries.last();
        assert(needs_write(proto, ports_num, Some(raw), e) == pred(e));
        if pred(e) {
            assert(prev.push(e).map_values(f) =~= prev.map_values(f).push(f(e)));
        }
    } else {
        assert(entries.filter(pred) =~= Seq::<(usize, u8)>::empty());
    }
}

/// With a readback, every configured entry that differs from its port's field
/// of the state word is written to its port's hardware number.
pub proof fn lemma_apply_writes_each_change(proto: PoeProto, ports_num: nat, raw: u32, entries: Seq<(usize, u8)>, i: int)
    requires
        0 <= i < entries.len(),
        differs_from_state(proto, ports_num, raw, entries[i]),
    ensures
        apply_writes(proto, ports_num, Some(raw), entries).contains(
            (((ports_num - entries[i].0 + 1) as u8), entries[i].1),
        ),
    decreases entries.len(),
{
    let e = entries.last();
    let w = apply_writes(proto, ports_num, Some(raw), entries.drop_last());
    assert(needs_write(proto, ports_num, Some(raw), e) == differs_from_state(proto, ports_num, raw, e));
    if i == entries.len() - 1 {
        let r = apply_writes(proto, ports_num, Some(raw), entries);
        assert(r == w.push((hw_port_of(ports_num, e.0 as nat), e.1)));
        assert(r[r.len() - 1] == (((ports_num - entries[i].0 + 1) as u8), entries[i].1));
    } else {
        assert(entries.drop_last()[i] == entries[i]);
        lemma_apply_writes_each_change(proto, ports_num, raw, entries.drop_last(), i);
        let x = (((ports_num - entries[i].0 + 1) as u8), entries[i].1);
        let j = choose|j: int| 0 <= j < w.len() && w[j] == x;
        let r = apply_writes(proto, ports_num, Some(raw), entries);
        if needs_write(proto, ports_num, Some(raw), e) {
            assert(r[j] == w[j]);
        }
    }
}

/// Apply reads each port's mode from the same field of the state word that the
/// port listing shows for it (V2 and V3).
pub proof fn lemma_apply_reads_listed_field(proto: PoeProto, ports_num: nat, hi: u8, lo: u8, p: nat)
    requires
        proto != PoeProto::V4,
        1 <= p <= ports_num,
    ensures
        current_value(proto, ports_num, Some(be16(hi, lo) as u32), p) == Some(
            nibble(be16(hi, lo), config_field(proto, ports_num, (p - 1) as nat)),
        ),
{
    assert(be16(hi, lo) < 0x10000);
    assert((be16(hi, lo) as u32) as nat == be16(hi, lo));
    assert(apply_shift(proto, ports_num, p) == 4 * config_field(proto, ports_num, (p - 1) as nat));
}

} // verus!
