//! The known PoE boards and how the running board is recognised.

use vstd::prelude::*;
use crate::error::MtpoeError;
use crate::poe::hw_port_of;
use crate::spi::PoeProto;
use crate::text::{chars_eq, dec, push_chars, push_dec, push_str, string_of, trim, trim_chars};

verus! {

/// Where the system names the board it runs on.
pub const BOARD_NAME_FILE: &'static str = "/tmp/sysinfo/board_name";

/// Number of known boards.
pub const POE_BOARD_COUNT: usize = 3;

/// A board with a PoE controller.
pub struct PoeBoard {
    /// The names the system may give the board.
    pub names: Vec<&'static str>,
    pub proto: PoeProto,
    /// The SPI device the controller sits on.
    pub spidev: &'static str,
    pub ports_num: usize,
    /// Per chassis port (in order), the offset of its status command.
    pub port_state_map: Vec<u8>,
}

/// The names of known board `i`.
pub open spec fn board_names(i: nat) -> Seq<Seq<char>> {
    if i == 0 {
        seq!["rb-750p-pbr2"@]
    } else if i == 1 {
        seq!["mikrotik,routerboard-960pgs"@]
    } else {
        seq!["mikrotik,rb5009upr"@]
    }
}

/// Whether `b` is known board `i`: the RB750P-PBR2 (V2, 4 ports), the RB960PGS
/// (V3, 4 ports) or the RB5009UPr+S+IN (V4, 8 ports). The hardware numbers
/// status commands in the reverse order of the chassis ports.
pub open spec fn is_board(b: PoeBoard, i: nat) -> bool {
    &&& b.names@.map_values(|s: &'static str| s@) == board_names(i)
    &&& if i == 0 {
        &&& b.proto == PoeProto::V2
        &&& b.spidev@ == "/dev/spidev0.2"@
        &&& b.ports_num == 4
        &&& b.port_state_map@ == seq![0xdu8, 0xc, 0xb, 0xa]
    } else if i == 1 {
        &&& b.proto == PoeProto::V3
        &&& b.spidev@ == "/dev/spidev0.2"@
        &&& b.ports_num == 4
        &&& b.port_state_map@ == seq![0xdu8, 0xc, 0xb, 0xa]
    } else {
        &&& b.proto == PoeProto::V4
        &&& b.spidev@ == "/dev/spidev2.0"@
        &&& b.ports_num == 8
        &&& b.port_state_map@ == seq![0x8u8, 0x7, 0x6, 0x5, 0x4, 0x3, 0x2, 0x1]
    }
}

/// Known board number `i` (0-based).
pub fn poe_board(i: usize) -> (b: PoeBoard)
    requires
        i < POE_BOARD_COUNT,
    ensures
        is_board(b, i as nat),
{
    let b: PoeBoard = if i == 0 {
        PoeBoard {
            names: vec!["rb-750p-pbr2"],
            proto: PoeProto::V2,
            spidev: "/dev/spidev0.2",
            ports_num: 4,
            port_state_map: vec![0xd, 0xc, 0xb, 0xa],
        }
    } else if i == 1 {
        PoeBoard {
            names: vec!["mikrotik,routerboard-960pgs"],
            proto: PoeProto::V3,
            spidev: "/dev/spidev0.2",
            ports_num: 4,
            port_state_map: vec![0xd, 0xc, 0xb, 0xa],
        }
    } else {
        // Only the RB5009UPr+S+IN has PoE; the RB5009UG is another board.
        PoeBoard {
            names: vec!["mikrotik,rb5009upr"],
            proto: PoeProto::V4,
            spidev: "/dev/spidev2.0",
            ports_num: 8,
            port_state_map: vec![0x8, 0x7, 0x6, 0x5, 0x4, 0x3, 0x2, 0x1],
        }
    };
    assert(b.names@.map_values(|s: &'static str| s@) =~= board_names(i as nat));
    assert(b.port_state_map@ =~= (if i == 0 || i == 1 {
        seq![0xdu8, 0xc, 0xb, 0xa]
    } else {
        seq![0x8u8, 0x7, 0x6, 0x5, 0x4, 0x3, 0x2, 0x1]
    }));
    b
}

/// The first known board that goes by `name`.
pub open spec fn board_index_of(name: Seq<char>) -> Option<nat> {
    if board_names(0).contains(name) {
        Some(0)
    } else if board_names(1).contains(name) {
        Some(1)
    } else if board_names(2).contains(name) {
        Some(2)
    } else {
        None
    }
}

/// Recognises the board from the contents of the board-name file: the name,
/// without surrounding whitespace, must be one a known board goes by.
pub fn detect_board(board_name_file: &str) -> (r: Result<PoeBoard, MtpoeError>)
    ensures
        match board_index_of(trim(board_name_file@)) {
            Some(i) => r matches Ok(b) && is_board(b, i),
            None => r matches Err(MtpoeError::BoardDetection(m)) && m@ == "unsupported board: '"@ + trim(
                board_name_file@,
            ) + "'"@,
        },
{
    let name: Vec<char> = trim_chars(board_name_file);
    let mut i: usize = 0;
    while i < POE_BOARD_COUNT
        invariant
            i <= POE_BOARD_COUNT,
            name@ == trim(board_name_file@),
            forall|k: nat| k < i ==> !board_names(k).contains(name@),
        decreases POE_BOARD_COUNT - i,
    {
        let b: PoeBoard = poe_board(i);
        let mut j: usize = 0;
        while j < b.names.len()
            invariant
                is_board(b, i as nat),
                i < POE_BOARD_COUNT,
                name@ == trim(board_name_file@),
                forall|k: nat| k < i ==> !board_names(k).contains(name@),
                j <= b.names@.len(),
                forall|q: int| 0 <= q < j ==> b.names@[q]@ != name@,
            decreases b.names@.len() - j,
        {
            assert(b.names@.map_values(|s: &'static str| s@)[j as int] == b.names@[j as int]@);
            if chars_eq(name.as_slice(), b.names[j]) {
                assert(board_names(i as nat)[j as int] == name@);
                assert(board_names(i as nat).contains(name@));
                if i >= 1 {
                    assert(!board_names(0).contains(name@));
                }
                if i >= 2 {
                    assert(!board_names(1).contains(name@));
                }
                return Ok(b);
            }
            j = j + 1;
        }
        assert(!board_names(i as nat).contains(name@)) by {
            if board_names(i as nat).contains(name@) {
                let q = choose|q: int| 0 <= q < board_names(i as nat).len() && board_names(i as nat)[q] == name@;
                assert(b.names@.map_values(|s: &'static str| s@)[q] == b.names@[q]@);
            }
        }
        i = i + 1;
    }
    let mut m: String = string_of("unsupported board: '");
    push_chars(&mut m, name.as_slice(), 0, name.len());
    push_str(&mut m, "'");
    assert(name@.subrange(0, name@.len() as int) =~= name@);
    Err(MtpoeError::BoardDetection(m))
}

/// Picks a board by its 1-based number (0 counts as 1).
pub fn board_by_index(idx: usize) -> (r: Result<PoeBoard, MtpoeError>)
    ensures
        (if idx == 0 { 0 } else { idx - 1 }) < POE_BOARD_COUNT ==> (r matches Ok(b) && is_board(
            b,
            (if idx == 0 { 0 } else { idx - 1 }) as nat,
        )),
        (if idx == 0 { 0 } else { idx - 1 }) >= POE_BOARD_COUNT ==> (r matches Err(
            MtpoeError::BoardDetection(m),
        ) && m@ == "board index "@ + dec(idx as nat) + " out of range"@),
{
    let i: usize = if idx == 0 { 0 } else { idx - 1 };
    if i < POE_BOARD_COUNT {
        Ok(poe_board(i))
    } else {
        let mut m: String = string_of("board index ");
        push_dec(&mut m, idx as u64);
        push_str(&mut m, " out of range");
        Err(MtpoeError::BoardDetection(m))
    }
}

/// The protocol to speak: the one asked for (2, 3 or 4), else the board's.
pub fn select_proto(requested: Option<u8>, board_proto: PoeProto) -> (r: Result<PoeProto, MtpoeError>)
    ensures
        requested == Some(2u8) ==> r == Ok::<PoeProto, MtpoeError>(PoeProto::V2),
        requested == Some(3u8) ==> r == Ok::<PoeProto, MtpoeError>(PoeProto::V3),
        requested == Some(4u8) ==> r == Ok::<PoeProto, MtpoeError>(PoeProto::V4),
        requested is None ==> r == Ok::<PoeProto, MtpoeError>(board_proto),
        requested is Some && (requested->0 < 2 || requested->0 > 4) ==> (r matches Err(
            MtpoeError::InvalidValue(m),
        ) && m@ == "unknown proto version "@ + dec(requested->0 as nat)),
{
    match requested {
        Some(2) => Ok(PoeProto::V2),
        Some(3) => Ok(PoeProto::V3),
        Some(4) => Ok(PoeProto::V4),
        None => Ok(board_proto),
        Some(v) => {
            let mut m: String = string_of("unknown proto version ");
            push_dec(&mut m, v as u64);
            Err(MtpoeError::InvalidValue(m))
        },
    }
}

/// What each known board name selects: "rb-750p-pbr2" is the V2 controller on
/// /dev/spidev0.2 with 4 ports, "mikrotik,routerboard-960pgs" the V3 one on
/// /dev/spidev0.2 with 4 ports, "mikrotik,rb5009upr" the V4 one on
/// /dev/spidev2.0 with 8 ports.
pub proof fn lemma_known_board_names(b: PoeBoard)
    ensures
        (board_index_of("rb-750p-pbr2"@) matches Some(i) && is_board(b, i)) ==> b.proto == PoeProto::V2
            && b.spidev@ == "/dev/spidev0.2"@ && b.ports_num == 4,
        (board_index_of("mikrotik,routerboard-960pgs"@) matches Some(i) && is_board(b, i)) ==> b.proto
            == PoeProto::V3 && b.spidev@ == "/dev/spidev0.2"@ && b.ports_num == 4,
        (board_index_of("mikrotik,rb5009upr"@) matches Some(i) && is_board(b, i)) ==> b.proto == PoeProto::V4
            && b.spidev@ == "/dev/spidev2.0"@ && b.ports_num == 8,
        board_index_of("rb-750p-pbr2"@) is Some,
        board_index_of("mikrotik,routerboard-960pgs"@) is Some,
        board_index_of("mikrotik,rb5009upr"@) is Some,
{
    reveal_strlit("rb-750p-pbr2");
    reveal_strlit("mikrotik,routerboard-960pgs");
    reveal_strlit("mikrotik,rb5009upr");
    assert(board_names(0)[0] == "rb-750p-pbr2"@);
    assert(board_names(1)[0] == "mikrotik,routerboard-960pgs"@);
    assert(board_names(2)[0] == "mikrotik,rb5009upr"@);
    assert(board_names(0).contains("rb-750p-pbr2"@));
    assert(!board_names(0).contains("mikrotik,routerboard-960pgs"@)) by {
        assert("rb-750p-pbr2"@.len() != "mikrotik,routerboard-960pgs"@.len());
    }
    assert(board_names(1).contains("mikrotik,routerboard-960pgs"@));
    assert(!board_names(0).contains("mikrotik,rb5009upr"@)) by {
        assert("rb-750p-pbr2"@.len() != "mikrotik,rb5009upr"@.len());
    }
    assert(!board_names(1).contains("mikrotik,rb5009upr"@)) by {
        assert("mikrotik,routerboard-960pgs"@.len() != "mikrotik,rb5009upr"@.len());
    }
    assert(board_names(2).contains("mikrotik,rb5009upr"@));
}

/// The status commands follow the hardware's reverse numbering: on every known
/// board, the command offset of chassis port `j + 1` is a fixed base plus its
/// hardware port number (base 9 on the four-port boards, 0 on the eight-port one).
pub proof fn lemma_status_map_reverses(b: PoeBoard, i: nat, j: int)
    requires
        i < POE_BOARD_COUNT,
        is_board(b, i),
        0 <= j < b.ports_num,
    ensures
        b.port_state_map@.len() == b.ports_num,
        b.port_state_map@[j] == (if b.ports_num == 4 { 9int } else { 0int }) + hw_port_of(
            b.ports_num as nat,
            (j + 1) as nat,
        ),
{
}

} // verus!
