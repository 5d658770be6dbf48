//! Text building blocks: decimal and hexadecimal rendering, Unicode whitespace,
//! trimming, padding, and the string operations the rest of the crate uses.

use vstd::prelude::*;
use vstd::string::StringExecFns;
use vstd::string::StrSliceExecFns;

verus! {

/// The character for digit `d` (below 16); letters are upper or lower case.
pub open spec fn digit_char(d: nat, upper: bool) -> char {
    if d < 10 {
        (48 + d) as char
    } else if upper {
        (55 + d) as char
    } else {
        (87 + d) as char
    }
}

/// Decimal digits of `n`, most significant first, with no leading zeros.
pub open spec fn dec(n: nat) -> Seq<char>
    decreases n,
{
    if n < 10 {
        seq![digit_char(n, false)]
    } else {
        dec(n / 10).push(digit_char(n % 10, false))
    }
}

/// Decimal rendering of a signed integer: a minus sign, then the digits of its magnitude.
pub open spec fn dec_int(i: int) -> Seq<char> {
    if i < 0 {
        seq!['-'] + dec((-i) as nat)
    } else {
        dec(i as nat)
    }
}

/// Decimal digits of `n`, padded on the left with zeros to at least two digits.
pub open spec fn dec2(n: nat) -> Seq<char> {
    if n < 10 {
        seq!['0', digit_char(n, false)]
    } else {
        dec(n)
    }
}

/// Two hexadecimal digits of a byte.
pub open spec fn hex2(b: u8, upper: bool) -> Seq<char> {
    seq![digit_char((b / 16) as nat, upper), digit_char((b % 16) as nat, upper)]
}

/// Four upper-case hexadecimal digits of a 16-bit word.
pub open spec fn hex4_upper(w: u16) -> Seq<char> {
    hex2((w / 256) as u8, true) + hex2((w % 256) as u8, true)
}

/// `s` padded on the right with spaces to at least `width` characters.
pub open spec fn pad_right(s: Seq<char>, width: nat) -> Seq<char> {
    if s.len() >= width {
        s
    } else {
        s + Seq::new((width - s.len()) as nat, |i: int| ' ')
    }
}

/// Unicode `White_Space`: the characters that `char::is_whitespace` accepts.
pub open spec fn is_ws(c: char) -> bool {
    let u = c as int;
    ||| 9 <= u <= 13
    ||| u == 0x20
    ||| u == 0x85
    ||| u == 0xA0
    ||| u == 0x1680
    ||| 0x2000 <= u <= 0x200A
    ||| u == 0x2028
    ||| u == 0x2029
    ||| u == 0x202F
    ||| u == 0x205F
    ||| u == 0x3000
}

/// `s` without its leading whitespace.
pub open spec fn trim_start(s: Seq<char>) -> Seq<char>
    decreases s.len(),
{
    if s.len() > 0 && is_ws(s[0]) {
        trim_start(s.drop_first())
    } else {
        s
    }
}

/// `s` without its trailing whitespace.
pub open spec fn trim_end(s: Seq<char>) -> Seq<char>
    decreases s.len(),
{
    if s.len() > 0 && is_ws(s.last()) {
        trim_end(s.drop_last())
    } else {
        s
    }
}

/// `s` without leading and trailing whitespace.
pub open spec fn trim(s: Seq<char>) -> Seq<char> {
    trim_end(trim_start(s))
}

/// Whether `c` is Unicode whitespace.
pub fn is_whitespace(c: char) -> (b: bool)
    ensures
        b == is_ws(c),
{
    let u: u32 = c as u32;
    (9 <= u && u <= 13) || u == 0x20 || u == 0x85 || u == 0xA0 || u == 0x1680 || (0x2000 <= u
        && u <= 0x200A) || u == 0x2028 || u == 0x2029 || u == 0x202F || u == 0x205F || u == 0x3000
}

/// Appends `c` to `s`.
/// Trusted: `String::push` appends exactly that character.
#[verifier::external_body]
pub(crate) fn push_char(s: &mut String, c: char)
    ensures
        final(s)@ == old(s)@.push(c),
{
    s.push(c)
}

/// Appends the characters of `t` to `s`.
pub fn push_str(s: &mut String, t: &str)
    ensures
        final(s)@ == old(s)@ + t@,
{
    s.append(t);
}

/// A new string holding the characters of `t`.
pub fn string_of(t: &str) -> (s: String)
    ensures
        s@ == t@,
{
    String::from_str(t)
}

/// The characters of `t`, in order.
pub fn chars_of(t: &str) -> (v: Vec<char>)
    ensures
        v@ == t@,
{
    let n: usize = t.unicode_len();
    let mut v: Vec<char> = Vec::new();
    let mut i: usize = 0;
    while i < n
        invariant
            n == t@.len(),
            i <= n,
            v@ == t@.subrange(0, i as int),
        decreases n - i,
    {
        v.push(t.get_char(i));
        i = i + 1;
    }
    assert(t@.subrange(0, n as int) =~= t@);
    v
}

/// Appends the characters `v[lo..hi]` to `s`.
pub fn push_chars(s: &mut String, v: &[char], lo: usize, hi: usize)
    requires
        lo <= hi <= v@.len(),
    ensures
        final(s)@ == old(s)@ + v@.subrange(lo as int, hi as int),
{
    let mut i: usize = lo;
    while i < hi
        invariant
            lo <= i <= hi <= v@.len(),
            s@ == old(s)@ + v@.subrange(lo as int, i as int),
        decreases hi - i,
    {
        push_char(s, v[i]);
        assert(v@.subrange(lo as int, i + 1) =~= v@.subrange(lo as int, i as int).push(v@[i as int]));
        i = i + 1;
    }
}

/// A new string of the characters `v[lo..hi]`.
pub fn string_from_chars(v: &[char], lo: usize, hi: usize) -> (s: String)
    requires
        lo <= hi <= v@.len(),
    ensures
        s@ == v@.subrange(lo as int, hi as int),
{
    let mut s: String = String::new();
    push_chars(&mut s, v, lo, hi);
    s
}

/// Whether `v` holds exactly the characters of `t`.
pub fn chars_eq(v: &[char], t: &str) -> (b: bool)
    ensures
        b == (v@ == t@),
{
    let n: usize = t.unicode_len();
    if v.len() != n {
        return false;
    }
    let mut i: usize = 0;
    while i < n
        invariant
            n == t@.len(),
            n == v@.len(),
            i <= n,
            forall|j: int| 0 <= j < i ==> v@[j] == t@[j],
        decreases n - i,
    {
        if v[i] != t.get_char(i) {
            return false;
        }
        i = i + 1;
    }
    assert(v@ =~= t@);
    true
}

/// The digit character for `d` (below 16).
pub fn digit(d: u8, upper: bool) -> (c: char)
    requires
        d < 16,
    ensures
        c == digit_char(d as nat, upper),
{
    if d < 10 {
        (48u8 + d) as char
    } else if upper {
        (55u8 + d) as char
    } else {
        (87u8 + d) as char
    }
}

/// Appends the decimal digits of `n` to `s`.
pub fn push_dec(s: &mut String, n: u64)
    ensures
        final(s)@ == old(s)@ + dec(n as nat),
    decreases n,
{
    if n < 10 {
        push_char(s, digit(n as u8, false));
    } else {
        push_dec(s, n / 10);
        push_char(s, digit((n % 10) as u8, false));
    }
}

/// Appends the decimal rendering of the signed integer `i` to `s`.
pub fn push_dec_int(s: &mut String, i: i64)
    ensures
        final(s)@ == old(s)@ + dec_int(i as int),
{
    if i < 0 {
        push_char(s, '-');
        let m: u64 = (0i128 - i as i128) as u64;
        push_dec(s, m);
        assert(old(s)@ + dec_int(i as int) =~= old(s)@.push('-') + dec(m as nat));
    } else {
        push_dec(s, i as u64);
    }
}

/// Appends the decimal digits of `n`, zero-padded to two digits, to `s`.
pub fn push_dec2(s: &mut String, n: u64)
    ensures
        final(s)@ == old(s)@ + dec2(n as nat),
{
    if n < 10 {
        push_char(s, '0');
        push_char(s, digit(n as u8, false));
        assert(old(s)@.push('0').push(digit_char(n as nat, false)) =~= old(s)@ + dec2(n as nat));
    } else {
        push_dec(s, n);
    }
}

/// Appends the two hexadecimal digits of `b` to `s`.
pub fn push_hex2(s: &mut String, b: u8, upper: bool)
    ensures
        final(s)@ == old(s)@ + hex2(b, upper),
{
    push_char(s, digit(b / 16, upper));
    push_char(s, digit(b % 16, upper));
    assert(old(s)@.push(digit_char((b / 16) as nat, upper)).push(digit_char((b % 16) as nat, upper))
        =~= old(s)@ + hex2(b, upper));
}

/// Appends the four upper-case hexadecimal digits of `w` to `s`.
pub fn push_hex4_upper(s: &mut String, w: u16)
    ensures
        final(s)@ == old(s)@ + hex4_upper(w),
{
    push_hex2(s, (w / 256) as u8, true);
    push_hex2(s, (w % 256) as u8, true);
    assert(old(s)@ + hex2((w / 256) as u8, true) + hex2((w % 256) as u8, true) =~= old(s)@
        + hex4_upper(w));
}

/// Appends the characters of `t`, padded with spaces to at least `width`, to `s`.
pub fn push_padded(s: &mut String, t: &str, width: usize)
    ensures
        final(s)@ == old(s)@ + pad_right(t@, width as nat),
{
    push_str(s, t);
    let n: usize = t.unicode_len();
    let mut k: usize = n;
    while k < width
        invariant
            n == t@.len(),
            n <= width ==> n <= k <= width,
            n > width ==> k == n,
            s@ == old(s)@ + t@ + Seq::new((k - n) as nat, |i: int| ' '),
        decreases width - k,
    {
        push_char(s, ' ');
        assert(Seq::new((k + 1 - n) as nat, |i: int| ' ') =~= Seq::new((k - n) as nat, |i: int| ' ').push(' '));
        k = k + 1;
    }
    assert(Seq::new(0nat, |i: int| ' ') =~= Seq::<char>::empty());
    assert(old(s)@ + t@ + Seq::<char>::empty() =~= old(s)@ + t@);
    assert(s@ =~= old(s)@ + pad_right(t@, width as nat));
}

/// Index of the first non-whitespace character of `v` at or after `i` (or the end).
pub fn skip_ws(v: &[char], i: usize) -> (j: usize)
    requires
        i <= v@.len(),
    ensures
        i <= j <= v@.len(),
        trim_start(v@.subrange(i as int, v@.len() as int)) == v@.subrange(j as int, v@.len() as int),
        forall|k: int| i <= k < j ==> is_ws(v@[k]),
        j < v@.len() ==> !is_ws(v@[j as int]),
{
    let n: usize = v.len();
    let mut j: usize = i;
    while j < n && is_whitespace(v[j])
        invariant
            n == v@.len(),
            i <= j <= n,
            trim_start(v@.subrange(i as int, n as int)) == trim_start(v@.subrange(j as int, n as int)),
            forall|k: int| i <= k < j ==> is_ws(v@[k]),
        decreases n - j,
    {
        assert(v@.subrange(j as int, n as int).drop_first() =~= v@.subrange(j + 1, n as int));
        j = j + 1;
    }
    j
}

/// Length of `v[lo..hi]` once its trailing whitespace is removed, as an end index.
pub fn trim_end_index(v: &[char], lo: usize, hi: usize) -> (j: usize)
    requires
        lo <= hi <= v@.len(),
    ensures
        lo <= j <= hi,
        trim_end(v@.subrange(lo as int, hi as int)) == v@.subrange(lo as int, j as int),
{
    let mut j: usize = hi;
    while j > lo && is_whitespace(v[j - 1])
        invariant
            lo <= j <= hi <= v@.len(),
            trim_end(v@.subrange(lo as int, hi as int)) == trim_end(v@.subrange(lo as int, j as int)),
        decreases j,
    {
        assert(v@.subrange(lo as int, j as int).drop_last() =~= v@.subrange(lo as int, j - 1));
        j = j - 1;
    }
    j
}

/// `t` without leading and trailing whitespace, as characters.
pub fn trim_chars(t: &str) -> (v: Vec<char>)
    ensures
        v@ == trim(t@),
{
    let all: Vec<char> = chars_of(t);
    let n: usize = all.len();
    let i: usize = skip_ws(&all, 0);
    assert(all@.subrange(0, n as int) =~= all@);
    let j: usize = trim_end_index(&all, i, n);
    let mut v: Vec<char> = Vec::new();
    let mut k: usize = i;
    while k < j
        invariant
            i <= k <= j <= n == all@.len(),
            v@ == all@.subrange(i as int, k as int),
        decreases j - k,
    {
        v.push(all[k]);
        k = k + 1;
    }
    v
}

/// Value of `c` as a digit in `radix` (10 or 16), as `char::to_digit` gives it.
pub open spec fn digit_value(c: char, radix: nat) -> Option<nat> {
    let u = c as int;
    if 48 <= u <= 57 && u - 48 < radix {
        Some((u - 48) as nat)
    } else if 97 <= u <= 122 && u - 87 < radix {
        Some((u - 87) as nat)
    } else if 65 <= u <= 90 && u - 55 < radix {
        Some((u - 55) as nat)
    } else {
        None
    }
}

/// Value of a run of digits in `radix`, or `None` if one is not a digit.
pub open spec fn digits_value(s: Seq<char>, radix: nat) -> Option<nat>
    decreases s.len(),
{
    if s.len() == 0 {
        Some(0)
    } else {
        match (digits_value(s.drop_last(), radix), digit_value(s.last(), radix)) {
            (Some(v), Some(d)) => Some(v * radix + d),
            _ => None,
        }
    }
}

/// An unsigned byte written in `radix`, as `u8::from_str_radix` reads it: an
/// optional `+`, then at least one digit, with a value below 256.
pub open spec fn parse_u8(s: Seq<char>, radix: nat) -> Option<u8> {
    let d = if s.len() > 0 && s[0] == '+' {
        s.drop_first()
    } else {
        s
    };
    if d.len() == 0 {
        None
    } else {
        match digits_value(d, radix) {
            Some(v) => if v <= 255 {
                Some(v as u8)
            } else {
                None
            },
            None => None,
        }
    }
}

/// Digit value of `c` in `radix` (10 or 16).
pub fn char_digit(c: char, radix: u32) -> (r: Option<u32>)
    requires
        radix == 10 || radix == 16,
    ensures
        match digit_value(c, radix as nat) {
            Some(d) => r == Some(d as u32),
            None => r is None,
        },
{
    let u: u32 = c as u32;
    if 48 <= u && u <= 57 && u - 48 < radix {
        Some(u - 48)
    } else if 97 <= u && u <= 122 && u - 87 < radix {
        Some(u - 87)
    } else if 65 <= u && u <= 90 && u - 55 < radix {
        Some(u - 55)
    } else {
        None
    }
}

proof fn lemma_digits_grow(s: Seq<char>, radix: nat, v: nat, d: nat)
    requires
        radix == 10 || radix == 16,
        digits_value(s, radix) == Some(v),
        v >= 256,
    ensures
        v * radix + d >= 256,
{
}

/// Reads `v[lo..hi]` as an unsigned byte in `radix`.
pub fn parse_u8_chars(v: &[char], lo: usize, hi: usize, radix: u32) -> (r: Option<u8>)
    requires
        lo <= hi <= v@.len(),
        radix == 10 || radix == 16,
    ensures
        r == parse_u8(v@.subrange(lo as int, hi as int), radix as nat),
{
    let ghost s = v@.subrange(lo as int, hi as int);
    let mut i: usize = lo;
    if lo < hi && v[lo] == '+' {
        i = lo + 1;
    }
    let ghost d = if s.len() > 0 && s[0] == '+' { s.drop_first() } else { s };
    assert(d =~= v@.subrange(i as int, hi as int));
    if i == hi {
        return None;
    }
    let start: usize = i;
    let mut val: u32 = 0;
    while i < hi
        invariant
            lo <= start <= i <= hi <= v@.len(),
            radix == 10 || radix == 16,
            d == v@.subrange(start as int, hi as int),
            s == v@.subrange(lo as int, hi as int),
            d == (if s.len() > 0 && s[0] == '+' { s.drop_first() } else { s }),
            d.len() > 0,
            val <= 256,
            digits_value(v@.subrange(start as int, i as int), radix as nat) matches Some(x) && val == (
            if x > 256 {
                256
            } else {
                x
            }),
        decreases hi - i,
    {
        let ghost pre = v@.subrange(start as int, i as int);
        let ghost nxt = v@.subrange(start as int, i + 1);
        assert(nxt.drop_last() =~= pre);
        assert(nxt.last() == v@[i as int]);
        match char_digit(v[i], radix) {
            None => {
                // A non-digit makes the whole run invalid.
                proof {
                    lemma_digits_none_extends(d, (i - start) as nat, radix as nat);
                }
                return None;
            },
            Some(dg) => {
                let nv: u32 = val * radix + dg;
                proof {
                    let x = digits_value(pre, radix as nat)->0;
                    if x > 256 {
                        lemma_digits_grow(pre, radix as nat, x, dg as nat);
                        assert(nv >= 256);
                    }
                }
                val = if nv > 256 { 256 } else { nv };
            },
        }
        i = i + 1;
    }
    assert(v@.subrange(start as int, hi as int) =~= d);
    if val <= 255 {
        Some(val as u8)
    } else {
        None
    }
}

/// A run of digits that contains a non-digit has no value, however it goes on.
proof fn lemma_digits_none_extends(s: Seq<char>, k: nat, radix: nat)
    requires
        k < s.len(),
        digit_value(s[k as int], radix) is None,
    ensures
        digits_value(s, radix) is None,
    decreases s.len(),
{
    if s.len() - 1 > k {
        assert(s.drop_last()[k as int] == s[k as int]);
        lemma_digits_none_extends(s.drop_last(), k, radix);
    }
}

} // verus!
