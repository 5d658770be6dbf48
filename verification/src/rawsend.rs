//! Raw transfers for debugging: reading the bytes to send from hex text, and
//! showing bytes as hex.

use vstd::prelude::*;
use crate::error::MtpoeError;
use crate::output::{ProbeResult, RawSendResult};
use crate::poe::be16;
use crate::text::{
    chars_of, digit_char, digit_value, digits_value, hex2, hex4_upper, is_whitespace, is_ws, parse_u8, parse_u8_chars, push_chars,
    push_hex2, push_hex4_upper, push_str, skip_ws, string_of, trim_start,
};

verus! {

/// Index of the first whitespace character of `t`, or its length.
pub open spec fn first_ws(t: Seq<char>) -> nat
    decreases t.len(),
{
    if t.len() == 0 {
        0
    } else if is_ws(t[0]) {
        0
    } else {
        1 + first_ws(t.drop_first())
    }
}

/// `t` with every leading "0x" removed.
pub open spec fn strip_0x(t: Seq<char>) -> Seq<char>
    decreases t.len(),
{
    if t.len() >= 2 && t[0] == '0' && t[1] == 'x' {
        strip_0x(t.skip(2))
    } else {
        t
    }
}

pub proof fn lemma_first_ws_bounds(t: Seq<char>)
    ensures
        first_ws(t) <= t.len(),
        t.len() > 0 && !is_ws(t[0]) ==> first_ws(t) >= 1,
    decreases t.len(),
{
    if t.len() > 0 && !is_ws(t[0]) {
        lemma_first_ws_bounds(t.drop_first());
    }
}

pub proof fn lemma_trim_start_shape(s: Seq<char>)
    ensures
        trim_start(s).len() <= s.len(),
        trim_start(s).len() > 0 ==> !is_ws(trim_start(s)[0]),
    decreases s.len(),
{
    if s.len() > 0 && is_ws(s[0]) {
        lemma_trim_start_shape(s.drop_first());
    }
}

/// The bytes named by whitespace-separated hex tokens (each may carry "0x"
/// prefixes and a `+`), or the first token that names no byte.
pub open spec fn hex_tokens(s: Seq<char>) -> Result<Seq<u8>, Seq<char>>
    decreases s.len(),
{
    let t = trim_start(s);
    if t.len() == 0 {
        Ok(Seq::empty())
    } else {
        proof {
            lemma_trim_start_shape(s);
            lemma_first_ws_bounds(t);
        }
        let k = first_ws(t);
        let tok = t.take(k as int);
        match parse_u8(strip_0x(tok), 16) {
            None => Err(tok),
            Some(b) => match hex_tokens(t.skip(k as int)) {
                Ok(rest) => Ok(seq![b] + rest),
                Err(e) => Err(e),
            },
        }
    }
}

/// `bytes` put in front of a token result.
pub open spec fn prepend_bytes(bytes: Seq<u8>, r: Result<Seq<u8>, Seq<char>>) -> Result<Seq<u8>, Seq<char>> {
    match r {
        Ok(rest) => Ok(bytes + rest),
        Err(e) => Err(e),
    }
}

/// Reads the bytes to send from hex text such as "41 0x00 00": tokens are
/// separated by whitespace, each is a byte in hex after any "0x" prefixes.
pub fn parse_hex_bytes(hex: &str) -> (r: Result<Vec<u8>, MtpoeError>)
    ensures
        match hex_tokens(hex@) {
            Err(tok) => r matches Err(MtpoeError::InvalidValue(m)) && m@ == "invalid hex byte: '"@ + tok
                + "'"@,
            Ok(bs) => if bs.len() == 0 {
                r matches Err(MtpoeError::InvalidValue(m)) && m@ == "no bytes to send"@
            } else {
                r matches Ok(v) && v@ == bs
            },
        },
{
    let v: Vec<char> = chars_of(hex);
    let n: usize = v.len();
    let mut out: Vec<u8> = Vec::new();
    let mut i: usize = 0;
    assert(v@.subrange(0, n as int) =~= v@);
    assert(out@ + Seq::<u8>::empty() =~= out@);
    while i < n
        invariant
            n == v@.len(),
            i <= n,
            v@ == hex@,
            hex_tokens(hex@) == prepend_bytes(out@, hex_tokens(v@.subrange(i as int, n as int))),
        decreases n - i,
    {
        let ghost rest = v@.subrange(i as int, n as int);
        let j: usize = skip_ws(v.as_slice(), i);
        if j == n {
            assert(trim_start(rest).len() == 0);
            assert(v@.subrange(n as int, n as int) =~= Seq::<char>::empty());
            assert(trim_start(Seq::<char>::empty()) == Seq::<char>::empty());
            i = n;
        } else {
            let ghost t = v@.subrange(j as int, n as int);
            assert(trim_start(rest) == t);
            let mut e: usize = j;
            while e < n && !is_whitespace(v[e])
                invariant
                    n == v@.len(),
                    j <= e <= n,
                    first_ws(t) == (e - j) + first_ws(v@.subrange(e as int, n as int)),
                    t == v@.subrange(j as int, n as int),
                decreases n - e,
            {
                assert(v@.subrange(e as int, n as int).drop_first() =~= v@.subrange(e + 1, n as int));
                e = e + 1;
            }
            assert(first_ws(v@.subrange(e as int, n as int)) == 0);
            let ghost tok = v@.subrange(j as int, e as int);
            assert(t.take((e - j) as int) =~= tok);
            assert(t.skip((e - j) as int) =~= v@.subrange(e as int, n as int));
            let mut st: usize = j;
            while e - st >= 2 && v[st] == '0' && v[st + 1] == 'x'
                invariant
                    n == v@.len(),
                    j <= st <= e <= n,
                    strip_0x(tok) == strip_0x(v@.subrange(st as int, e as int)),
                    tok == v@.subrange(j as int, e as int),
                decreases e - st,
            {
                assert(v@.subrange(st as int, e as int).skip(2) =~= v@.subrange(st + 2, e as int));
                st = st + 2;
            }
            assert(strip_0x(tok) == v@.subrange(st as int, e as int));
            match parse_u8_chars(v.as_slice(), st, e, 16) {
                None => {
                    let mut m: String = string_of("invalid hex byte: '");
                    push_chars(&mut m, v.as_slice(), j, e);
                    push_str(&mut m, "'");
                    return Err(MtpoeError::InvalidValue(m));
                },
                Some(b) => {
                    let ghost before = out@;
                    out.push(b);
                    assert(prepend_bytes(before, hex_tokens(rest)) == prepend_bytes(out@, hex_tokens(v@.subrange(e as int, n as int)))) by {
                        match hex_tokens(v@.subrange(e as int, n as int)) {
                            Ok(r2) => {
                                assert(before + (seq![b] + r2) =~= out@ + r2);
                            },
                            Err(_) => {},
                        }
                    }
                    i = e;
                },
            }
        }
    }
    assert(v@.subrange(n as int, n as int) =~= Seq::<char>::empty());
    assert(out@ + Seq::<u8>::empty() =~= out@);
    if out.len() == 0 {
        return Err(MtpoeError::InvalidValue(string_of("no bytes to send")));
    }
    Ok(out)
}

/// Bytes shown as "0xAB 0xCD ...".
pub open spec fn hex_join(bs: Seq<u8>) -> Seq<char>
    decreases bs.len(),
{
    if bs.len() == 0 {
        Seq::empty()
    } else if bs.len() == 1 {
        "0x"@ + hex2(bs[0], true)
    } else {
        hex_join(bs.drop_last()) + " 0x"@ + hex2(bs.last(), true)
    }
}

/// Shows bytes as upper-case hex, each with "0x", separated by spaces.
pub fn hex_list(bytes: &[u8]) -> (s: String)
    ensures
        s@ == hex_join(bytes@),
{
    let mut s: String = String::new();
    let mut i: usize = 0;
    while i < bytes.len()
        invariant
            i <= bytes@.len(),
            s@ == hex_join(bytes@.subrange(0, i as int)),
        decreases bytes@.len() - i,
    {
        let ghost before = s@;
        if i == 0 {
            push_str(&mut s, "0x");
        } else {
            push_str(&mut s, " 0x");
        }
        push_hex2(&mut s, bytes[i], true);
        let ghost cur = bytes@.subrange(0, i + 1);
        assert(cur.drop_last() =~= bytes@.subrange(0, i as int));
        if i == 0 {
            assert(bytes@.subrange(0, 0) =~= Seq::<u8>::empty());
            assert(cur[0] == bytes@[0]);
        }
        i = i + 1;
    }
    assert(bytes@.subrange(0, bytes@.len() as int) =~= bytes@);
    s
}

/// The report of a raw transfer.
pub fn raw_send_result(tx: &[u8], rx: &[u8]) -> (r: RawSendResult)
    ensures
        r.action@ == "raw_send"@,
        r.tx@ == hex_join(tx@),
        r.rx@ == hex_join(rx@),
{
    RawSendResult { action: string_of("raw_send"), tx: hex_list(tx), rx: hex_list(rx) }
}

/// The report of a probe of register `cmd` with arguments `b1`, `b2`: the
/// frames in hex and the data word in hex and decimal.
pub fn probe_result(cmd: u8, b1: u8, b2: u8, tx: &[u8], rx: &[u8], hi: u8, lo: u8) -> (r: ProbeResult)
    ensures
        r.action@ == "probe"@,
        r.cmd@ == "0x"@ + hex2(cmd, true),
        r.b1 == b1,
        r.b2 == b2,
        r.tx@ == hex_join(tx@),
        r.rx@ == hex_join(rx@),
        r.data_hex@ == "0x"@ + hex4_upper(be16(hi, lo) as u16),
        r.data_dec as nat == be16(hi, lo),
{
    let word: u16 = (hi as u16) * 256 + (lo as u16);
    let mut c: String = string_of("0x");
    push_hex2(&mut c, cmd, true);
    let mut d: String = string_of("0x");
    push_hex4_upper(&mut d, word);
    ProbeResult {
        action: string_of("probe"),
        cmd: c,
        b1,
        b2,
        tx: hex_list(tx),
        rx: hex_list(rx),
        data_hex: d,
        data_dec: word,
    }
}

/// A hex digit written in upper case reads back as itself.
proof fn lemma_hex_digit_reads_back(d: nat)
    requires
        d < 16,
    ensures
        digit_value(digit_char(d, true), 16) == Some(d),
        !is_ws(digit_char(d, true)),
        digit_char(d, true) != 'x',
        digit_char(d, true) != '+',
{
}

/// Two upper-case hex digits read back as the byte.
proof fn lemma_hex2_reads_back(b: u8)
    ensures
        parse_u8(hex2(b, true), 16) == Some(b),
        strip_0x(hex2(b, true)) == hex2(b, true),
        !is_ws(hex2(b, true)[0]),
        !is_ws(hex2(b, true)[1]),
{
    let h = hex2(b, true);
    lemma_hex_digit_reads_back((b / 16) as nat);
    lemma_hex_digit_reads_back((b % 16) as nat);
    assert(h.drop_last() =~= seq![h[0]]);
    assert(seq![h[0]].drop_last() =~= Seq::<char>::empty());
    assert(digits_value(Seq::<char>::empty(), 16) == Some(0nat));
    assert(digits_value(seq![h[0]], 16) == Some((b / 16) as nat));
    assert(digits_value(h, 16) == Some(((b / 16) * 16 + b % 16) as nat));
}

/// The listing of bytes, built from the front.
proof fn lemma_hex_join_front(bs: Seq<u8>)
    requires
        bs.len() >= 1,
    ensures
        hex_join(bs) == "0x"@ + hex2(bs[0], true) + (if bs.len() > 1 {
            " "@ + hex_join(bs.drop_first())
        } else {
            Seq::empty()
        }),
    decreases bs.len(),
{
    reveal_strlit("0x");
    reveal_strlit(" 0x");
    reveal_strlit(" ");
    assert(" 0x"@ =~= " "@ + "0x"@);
    if bs.len() == 1 {
        assert("0x"@ + hex2(bs[0], true) + Seq::<char>::empty() =~= "0x"@ + hex2(bs[0], true));
    } else if bs.len() == 2 {
        let t = bs.drop_first();
        assert(bs.drop_last() =~= seq![bs[0]]);
        assert(t.len() == 1 && t[0] == bs[1]);
        assert(hex_join(bs.drop_last()) == "0x"@ + hex2(bs[0], true));
        assert(hex_join(t) == "0x"@ + hex2(bs[1], true));
        assert(hex_join(bs) == hex_join(bs.drop_last()) + " 0x"@ + hex2(bs[1], true));
        assert(hex_join(bs) =~= "0x"@ + hex2(bs[0], true) + (" "@ + hex_join(t)));
    } else {
        let d = bs.drop_last();
        lemma_hex_join_front(d);
        let t = bs.drop_first();
        assert(t.drop_last() =~= d.drop_first());
        assert(t.last() == bs.last());
        assert(d[0] == bs[0]);
        assert(hex_join(bs) =~= "0x"@ + hex2(bs[0], true) + (" "@ + hex_join(t)));
    }
}

/// Leading whitespace does not change what the tokens read.
proof fn lemma_hex_tokens_skip_space(x: Seq<char>)
    requires
        x.len() > 0,
        !is_ws(x[0]),
    ensures
        hex_tokens(" "@ + x) == hex_tokens(x),
{
    reveal_strlit(" ");
    let s = " "@ + x;
    assert(s.drop_first() =~= x);
    assert(trim_start(s) == trim_start(x));
    assert(trim_start(x) == x);
}

/// The first whitespace of `p + rest`, where `p` has none and `rest` starts
/// with whitespace or is empty, is at the end of `p`.
proof fn lemma_first_ws_after(p: Seq<char>, rest: Seq<char>)
    requires
        forall|i: int| 0 <= i < p.len() ==> !is_ws(#[trigger] p[i]),
        rest.len() == 0 || is_ws(rest[0]),
    ensures
        first_ws(p + rest) == p.len(),
    decreases p.len(),
{
    if p.len() == 0 {
        assert(p + rest =~= rest);
    } else {
        assert((p + rest).drop_first() =~= p.drop_first() + rest);
        assert forall|i: int| 0 <= i < p.drop_first().len() implies !is_ws(#[trigger] p.drop_first()[i]) by {
            assert(p.drop_first()[i] == p[i + 1]);
        }
        lemma_first_ws_after(p.drop_first(), rest);
    }
}

/// What a raw transfer shows as its bytes reads back as exactly those bytes.
pub proof fn lemma_hex_list_reads_back(bs: Seq<u8>)
    requires
        bs.len() >= 1,
    ensures
        hex_tokens(hex_join(bs)) == Ok::<Seq<u8>, Seq<char>>(bs),
    decreases bs.len(),
{
    reveal_strlit("0x");
    reveal_strlit(" ");
    lemma_hex_join_front(bs);
    lemma_hex2_reads_back(bs[0]);
    let head = "0x"@ + hex2(bs[0], true);
    let rest = if bs.len() > 1 { " "@ + hex_join(bs.drop_first()) } else { Seq::<char>::empty() };
    let s = hex_join(bs);
    assert(s == head + rest);
    assert(head.len() == 4);
    assert(head[0] == '0' && head[1] == 'x');
    assert(head.skip(2) =~= hex2(bs[0], true));
    assert(strip_0x(head) == hex2(bs[0], true));
    assert forall|i: int| 0 <= i < head.len() implies !is_ws(#[trigger] head[i]) by {}
    lemma_first_ws_after(head, rest);
    assert(!is_ws(s[0]));
    assert(trim_start(s) == s);
    assert(s.take(4) =~= head);
    assert(s.skip(4) =~= rest);
    if bs.len() > 1 {
        let t = bs.drop_first();
        lemma_hex_list_reads_back(t);
        lemma_hex_join_front(t);
        lemma_hex2_reads_back(t[0]);
        assert(hex_join(t)[0] == '0');
        lemma_hex_tokens_skip_space(hex_join(t));
        assert(seq![bs[0]] + t =~= bs);
    } else {
        assert(trim_start(Seq::<char>::empty()) == Seq::<char>::empty());
        assert(seq![bs[0]] + Seq::<u8>::empty() =~= bs);
    }
}

} // verus!
