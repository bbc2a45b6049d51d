//! Textual forms of binary data and 256-bit integers: hex strings to and
//! from byte sequences, decimal and hex numerals to and from [`U256`],
//! and the framing that strips a "0x" prefix or a function selector.

use vstd::prelude::*;
use vstd::string::*;
use crate::u256::U256;

verus! {

// ---------------------------------------------------------------------
// Digits
// ---------------------------------------------------------------------

pub open spec fn is_dec_digit(c: char) -> bool {
    48 <= c as u32 <= 57
}

pub open spec fn dec_digit_val(c: char) -> nat {
    (c as u32 - 48) as nat
}

pub open spec fn is_hex_digit(c: char) -> bool {
    48 <= c as u32 <= 57 || 97 <= c as u32 <= 102 || 65 <= c as u32 <= 70
}

pub open spec fn hex_digit_val(c: char) -> nat {
    if 48 <= c as u32 <= 57 {
        (c as u32 - 48) as nat
    } else if 97 <= c as u32 <= 102 {
        (c as u32 - 87) as nat
    } else {
        (c as u32 - 55) as nat
    }
}

/// The decimal digit character for a value below ten.
pub open spec fn dec_char_of(d: nat) -> char {
    ((48 + d) as u8) as char
}

/// The lowercase hex digit character for a value below sixteen.
pub open spec fn hex_char_of(d: nat) -> char {
    if d < 10 {
        ((48 + d) as u8) as char
    } else {
        ((87 + d) as u8) as char
    }
}

fn exec_dec_digit_val(c: char) -> (r: Option<u64>)
    ensures
        r is Some <==> is_dec_digit(c),
        r matches Some(d) ==> d == dec_digit_val(c) && d < 10,
{
    let u: u32 = c as u32;
    if 48 <= u && u <= 57 {
        Some((u - 48) as u64)
    } else {
        None
    }
}

fn exec_hex_digit_val(c: char) -> (r: Option<u64>)
    ensures
        r is Some <==> is_hex_digit(c),
        r matches Some(d) ==> d == hex_digit_val(c) && d < 16,
{
    let u: u32 = c as u32;
    if 48 <= u && u <= 57 {
        Some((u - 48) as u64)
    } else if 97 <= u && u <= 102 {
        Some((u - 87) as u64)
    } else if 65 <= u && u <= 70 {
        Some((u - 55) as u64)
    } else {
        None
    }
}

fn exec_dec_char_of(d: u64) -> (r: char)
    requires
        d < 10,
    ensures
        r == dec_char_of(d as nat),
{
    (48 + d as u8) as char
}

fn exec_hex_char_of(d: u64) -> (r: char)
    requires
        d < 16,
    ensures
        r == hex_char_of(d as nat),
{
    if d < 10 {
        (48 + d as u8) as char
    } else {
        (87 + d as u8) as char
    }
}

// ---------------------------------------------------------------------
// Hex strings <-> bytes
// ---------------------------------------------------------------------

/// The bytes a hex string denotes: two digits per byte, `None` on an odd
/// digit count or a character that is no hex digit.
pub open spec fn spec_hex_decode(s: Seq<char>) -> Option<Seq<u8>>
    decreases s.len(),
{
    if s.len() == 0 {
        Some(Seq::empty())
    } else if s.len() == 1 {
        None
    } else if is_hex_digit(s[0]) && is_hex_digit(s[1]) {
        match spec_hex_decode(s.skip(2)) {
            Some(rest) => Some(
                seq![(hex_digit_val(s[0]) * 16 + hex_digit_val(s[1])) as u8].add(rest),
            ),
            None => None,
        }
    } else {
        None
    }
}

/// The lowercase hex string of a byte sequence.
pub open spec fn spec_hex_encode(bs: Seq<u8>) -> Seq<char>
    decreases bs.len(),
{
    if bs.len() == 0 {
        Seq::empty()
    } else {
        seq![hex_char_of(bs[0] as nat / 16), hex_char_of(bs[0] as nat % 16)].add(
            spec_hex_encode(bs.skip(1)),
        )
    }
}

/// Decodes the hex digits of `s` from position `from` on.
pub fn hex_decode_from(s: &Vec<char>, from: usize) -> (r: Option<Vec<u8>>)
    requires
        from <= s@.len(),
    ensures
        r is Some <==> spec_hex_decode(s@.skip(from as int)) is Some,
        r matches Some(v) ==> Some(v@) == spec_hex_decode(s@.skip(from as int)),
    decreases s@.len() - from,
{
    let n = s.len();
    if from == n {
        proof {
            assert(s@.skip(from as int) =~= Seq::<char>::empty());
        }
        return Some(Vec::new());
    }
    if from + 1 == n {
        return None;
    }
    let hi = match exec_hex_digit_val(s[from]) {
        Some(d) => d,
        None => {
            return None;
        },
    };
    let lo = match exec_hex_digit_val(s[from + 1]) {
        Some(d) => d,
        None => {
            return None;
        },
    };
    proof {
        assert(s@.skip(from as int).skip(2) =~= s@.skip(from as int + 2));
    }
    match hex_decode_from(s, from + 2) {
        Some(mut rest) => {
            let b: u8 = (hi * 16 + lo) as u8;
            rest.insert(0, b);
            proof {
                assert(rest@ =~= seq![b].add(rest@.skip(1)));
                assert(Some(rest@) == spec_hex_decode(s@.skip(from as int)));
            }
            Some(rest)
        },
        None => None,
    }
}

/// Encodes bytes as a lowercase hex string, without any prefix.
pub fn hex_encode(bs: &Vec<u8>) -> (r: Vec<char>)
    ensures
        r@ == spec_hex_encode(bs@),
{
    let mut out: Vec<char> = Vec::new();
    let mut i: usize = 0;
    proof {
        lemma_hex_encode_take(bs@, 0);
    }
    while i < bs.len()
        invariant
            i <= bs@.len(),
            out@ == spec_hex_encode(bs@.take(i as int)),
        decreases bs@.len() - i,
    {
        let b = bs[i];
        out.push(exec_hex_char_of((b / 16) as u64));
        out.push(exec_hex_char_of((b % 16) as u64));
        proof {
            lemma_hex_encode_snoc(bs@, i as int);
        }
        i = i + 1;
    }
    proof {
        assert(bs@.take(bs@.len() as int) =~= bs@);
    }
    out
}

/// Encoding one more byte appends its two digits.
proof fn lemma_hex_encode_snoc(bs: Seq<u8>, i: int)
    requires
        0 <= i < bs.len(),
    ensures
        spec_hex_encode(bs.take(i + 1)) == spec_hex_encode(bs.take(i)).add(
            seq![hex_char_of(bs[i] as nat / 16), hex_char_of(bs[i] as nat % 16)],
        ),
    decreases i,
{
    if i == 0 {
        assert(bs.take(1).skip(1) =~= Seq::<u8>::empty());
        assert(bs.take(0) =~= Seq::<u8>::empty());
        assert(spec_hex_encode(Seq::<u8>::empty()) == Seq::<char>::empty());
        assert(bs.take(1)[0] == bs[0]);
        assert(spec_hex_encode(bs.take(1)) == seq![
            hex_char_of(bs.take(1)[0] as nat / 16),
            hex_char_of(bs.take(1)[0] as nat % 16),
        ].add(spec_hex_encode(bs.take(1).skip(1))));
        assert(spec_hex_encode(bs.take(1)) =~= spec_hex_encode(bs.take(0)).add(
            seq![hex_char_of(bs[0] as nat / 16), hex_char_of(bs[0] as nat % 16)],
        ));
    } else {
        assert(bs.take(i + 1).skip(1) =~= bs.skip(1).take(i));
        assert(bs.take(i).skip(1) =~= bs.skip(1).take(i - 1));
        lemma_hex_encode_snoc(bs.skip(1), i - 1);
        assert(spec_hex_encode(bs.take(i + 1)) =~= spec_hex_encode(bs.take(i)).add(
            seq![hex_char_of(bs[i] as nat / 16), hex_char_of(bs[i] as nat % 16)],
        ));
    }
}

proof fn lemma_hex_encode_take(bs: Seq<u8>, i: int)
    requires
        0 <= i <= bs.len(),
    ensures
        i == 0 ==> spec_hex_encode(bs.take(i)) == Seq::<char>::empty(),
{
    assert(bs.take(0) =~= Seq::<u8>::empty());
}

/// Hex encoding then decoding yields the bytes back.
pub proof fn lemma_hex_round_trip(bs: Seq<u8>)
    ensures
        spec_hex_encode(bs).len() == 2 * bs.len(),
        spec_hex_decode(spec_hex_encode(bs)) == Some(bs),
    decreases bs.len(),
{
    if bs.len() == 0 {
        assert(spec_hex_encode(bs) =~= Seq::<char>::empty());
        assert(spec_hex_decode(spec_hex_encode(bs)) == Some(Seq::<u8>::empty()));
        assert(bs =~= Seq::<u8>::empty());
    } else {
        let b = bs[0];
        let hi = b as nat / 16;
        let lo = b as nat % 16;
        lemma_hex_digit_char(hi);
        lemma_hex_digit_char(lo);
        lemma_hex_round_trip(bs.skip(1));
        let enc = spec_hex_encode(bs);
        assert(enc.skip(2) =~= spec_hex_encode(bs.skip(1)));
        assert(enc[0] == hex_char_of(hi) && enc[1] == hex_char_of(lo));
        assert(hex_digit_val(enc[0]) * 16 + hex_digit_val(enc[1]) == b as nat);
        assert(spec_hex_decode(enc) == Some(seq![b].add(bs.skip(1))));
        assert(seq![b].add(bs.skip(1)) =~= bs);
    }
}

/// The hex digit characters are digits and carry their value.
proof fn lemma_hex_digit_char(d: nat)
    requires
        d < 16,
    ensures
        is_hex_digit(hex_char_of(d)),
        hex_digit_val(hex_char_of(d)) == d,
{
}

// ---------------------------------------------------------------------
// Decimal and hex numerals <-> U256
// ---------------------------------------------------------------------

pub open spec fn all_dec_digits(s: Seq<char>) -> bool {
    forall|i: int| 0 <= i < s.len() ==> is_dec_digit(#[trigger] s[i])
}

pub open spec fn all_hex_digits(s: Seq<char>) -> bool {
    forall|i: int| 0 <= i < s.len() ==> is_hex_digit(#[trigger] s[i])
}

/// The number a string of decimal digits denotes.
pub open spec fn dec_val(s: Seq<char>) -> nat
    decreases s.len(),
{
    if s.len() == 0 {
        0
    } else {
        dec_val(s.drop_last()) * 10 + dec_digit_val(s.last())
    }
}

/// The number a string of hex digits denotes.
pub open spec fn hexnum_val(s: Seq<char>) -> nat
    decreases s.len(),
{
    if s.len() == 0 {
        0
    } else {
        hexnum_val(s.drop_last()) * 16 + hex_digit_val(s.last())
    }
}

/// The decimal numeral of a number, without leading zeros.
pub open spec fn dec_str_of(n: nat) -> Seq<char>
    decreases n,
{
    if n < 10 {
        seq![dec_char_of(n)]
    } else {
        dec_str_of(n / 10).push(dec_char_of(n % 10))
    }
}

/// A longer digit string never denotes a smaller number.
proof fn lemma_dec_val_prefix_mono(s: Seq<char>, i: int, j: int)
    requires
        0 <= i <= j <= s.len(),
    ensures
        dec_val(s.take(i)) <= dec_val(s.take(j)),
    decreases j - i,
{
    if i < j {
        lemma_dec_val_prefix_mono(s, i, j - 1);
        assert(s.take(j).drop_last() =~= s.take(j - 1));
        assert(dec_val(s.take(j)) == dec_val(s.take(j - 1)) * 10 + dec_digit_val(s.take(j).last()));
    }
}

proof fn lemma_hexnum_val_prefix_mono(s: Seq<char>, i: int, j: int)
    requires
        0 <= i <= j <= s.len(),
    ensures
        hexnum_val(s.take(i)) <= hexnum_val(s.take(j)),
    decreases j - i,
{
    if i < j {
        lemma_hexnum_val_prefix_mono(s, i, j - 1);
        assert(s.take(j).drop_last() =~= s.take(j - 1));
        assert(hexnum_val(s.take(j)) == hexnum_val(s.take(j - 1)) * 16 + hex_digit_val(
            s.take(j).last(),
        ));
    }
}

/// Parses the decimal digits of `s` from position `from` on into a
/// 256-bit value.  Fails on an empty digit string, a character that is
/// no decimal digit, or a value of 256 bits or more.
pub fn parse_dec_digits(s: &Vec<char>, from: usize) -> (r: Option<U256>)
    requires
        from <= s@.len(),
    ensures
        r is Some <==> (from as int) < s@.len() && all_dec_digits(s@.skip(from as int)) && dec_val(
            s@.skip(from as int),
        ) < 0x1_0000_0000_0000_0000_0000_0000_0000_0000_0000_0000_0000_0000_0000_0000_0000_0000,
        r matches Some(x) ==> x.val() == dec_val(s@.skip(from as int)),
{
    let ghost digits = s@.skip(from as int);
    let n = s.len();
    if from == n {
        return None;
    }
    let mut acc = U256::zero();
    let mut i: usize = from;
    proof {
        assert(digits.take(0) =~= Seq::<char>::empty());
    }
    while i < n
        invariant
            from <= i <= n == s@.len(),
            digits == s@.skip(from as int),
            acc.val() == dec_val(digits.take(i - from)),
            all_dec_digits(digits.take(i - from)),
        decreases n - i,
    {
        let d = match exec_dec_digit_val(s[i]) {
            Some(d) => d,
            None => {
                proof {
                    assert(digits[i - from] == s@[i as int]);
                }
                return None;
            },
        };
        let next = match acc.mul_base_add(10, d) {
            Some(x) => x,
            None => {
                proof {
                    assert(digits.take(i - from + 1).drop_last() =~= digits.take(i - from));
                    assert(digits.take(i - from + 1).last() == digits[i - from]);
                    assert(dec_val(digits.take(i - from + 1)) == acc.val() * 10 + d);
                    lemma_dec_val_prefix_mono(digits, i - from + 1, digits.len() as int);
                    assert(digits.take(digits.len() as int) =~= digits);
                }
                return None;
            },
        };
        proof {
            assert(digits.take(i - from + 1).drop_last() =~= digits.take(i - from));
            assert(digits.take(i - from + 1).last() == digits[i - from]);
            assert(digits[i - from] == s@[i as int]);
        }
        acc = next;
        i = i + 1;
    }
    proof {
        assert(digits.take(digits.len() as int) =~= digits);
    }
    Some(acc)
}

/// Parses the hex digits of `s` from position `from` on into a 256-bit
/// value, with the same failure cases as the decimal parser.
pub fn parse_hex_digits(s: &Vec<char>, from: usize) -> (r: Option<U256>)
    requires
        from <= s@.len(),
    ensures
        r is Some <==> (from as int) < s@.len() && all_hex_digits(s@.skip(from as int))
            && hexnum_val(s@.skip(from as int))
            < 0x1_0000_0000_0000_0000_0000_0000_0000_0000_0000_0000_0000_0000_0000_0000_0000_0000,
        r matches Some(x) ==> x.val() == hexnum_val(s@.skip(from as int)),
{
    let ghost digits = s@.skip(from as int);
    let n = s.len();
    if from == n {
        return None;
    }
    let mut acc = U256::zero();
    let mut i: usize = from;
    proof {
        assert(digits.take(0) =~= Seq::<char>::empty());
    }
    while i < n
        invariant
            from <= i <= n == s@.len(),
            digits == s@.skip(from as int),
            acc.val() == hexnum_val(digits.take(i - from)),
            all_hex_digits(digits.take(i - from)),
        decreases n - i,
    {
        let d = match exec_hex_digit_val(s[i]) {
            Some(d) => d,
            None => {
                proof {
                    assert(digits[i - from] == s@[i as int]);
                }
                return None;
            },
        };
        let next = match acc.mul_base_add(16, d) {
            Some(x) => x,
            None => {
                proof {
                    assert(digits.take(i - from + 1).drop_last() =~= digits.take(i - from));
                    assert(digits.take(i - from + 1).last() == digits[i - from]);
                    assert(hexnum_val(digits.take(i - from + 1)) == acc.val() * 16 + d);
                    lemma_hexnum_val_prefix_mono(digits, i - from + 1, digits.len() as int);
                    assert(digits.take(digits.len() as int) =~= digits);
                }
                return None;
            },
        };
        proof {
            assert(digits.take(i - from + 1).drop_last() =~= digits.take(i - from));
            assert(digits.take(i - from + 1).last() == digits[i - from]);
            assert(digits[i - from] == s@[i as int]);
        }
        acc = next;
        i = i + 1;
    }
    proof {
        assert(digits.take(digits.len() as int) =~= digits);
    }
    Some(acc)
}

/// Formats a 256-bit value as its decimal numeral.
pub fn format_dec(x: U256) -> (r: Vec<char>)
    ensures
        r@ == dec_str_of(x.val()),
{
    if x.is_zero() {
        let mut out: Vec<char> = Vec::new();
        out.push('0');
        proof {
            assert(dec_char_of(0) == '0');
            assert(out@ =~= dec_str_of(0));
        }
        return out;
    }
    let mut cur = x;
    let mut rev: Vec<char> = Vec::new();
    proof {
        assert(Seq::<char>::empty().reverse() =~= Seq::<char>::empty());
        assert(dec_str_of(x.val()).add(Seq::<char>::empty()) =~= dec_str_of(x.val()));
    }
    loop
        invariant
            cur.val() > 0 ==> dec_str_of(x.val()) == dec_str_of(cur.val()).add(rev@.reverse()),
            cur.val() == 0 ==> dec_str_of(x.val()) == rev@.reverse(),
        ensures
            dec_str_of(x.val()) == rev@.reverse(),
        decreases cur.val(),
    {
        if cur.is_zero() {
            break;
        }
        let (q, d) = cur.divmod10();
        let c = exec_dec_char_of(d);
        let ghost old_rev = rev@;
        rev.push(c);
        proof {
            assert(rev@.reverse() =~= seq![c].add(old_rev.reverse()));
            if q.val() > 0 {
                assert(cur.val() >= 10) by {
                    assert(cur.val() == q.val() * 10 + d);
                };
                assert(cur.val() / 10 == q.val() && cur.val() % 10 == d as nat);
                assert(dec_str_of(cur.val()) == dec_str_of(q.val()).push(dec_char_of(d as nat)));
                assert(dec_str_of(q.val()).push(c).add(old_rev.reverse()) =~= dec_str_of(
                    q.val(),
                ).add(seq![c].add(old_rev.reverse())));
            } else {
                assert(cur.val() == d as nat && cur.val() < 10);
                assert(dec_str_of(cur.val()) =~= seq![c]);
                assert(seq![c].add(old_rev.reverse()) =~= rev@.reverse());
            }
        }
        cur = q;
    }
    let n = rev.len();
    let mut out: Vec<char> = Vec::new();
    let mut i: usize = 0;
    while i < n
        invariant
            i <= n == rev@.len(),
            out@ =~= rev@.reverse().take(i as int),
        decreases n - i,
    {
        out.push(rev[n - 1 - i]);
        proof {
            assert(out@ =~= rev@.reverse().take(i + 1));
        }
        i = i + 1;
    }
    proof {
        assert(rev@.reverse().take(n as int) =~= rev@.reverse());
    }
    out
}

/// The decimal numeral of a number parses back to it: it is nonempty,
/// all digits, and denotes the number.
pub proof fn lemma_dec_round_trip(n: nat)
    ensures
        dec_str_of(n).len() >= 1,
        all_dec_digits(dec_str_of(n)),
        dec_val(dec_str_of(n)) == n,
    decreases n,
{
    if n < 10 {
        let s = dec_str_of(n);
        assert(s =~= seq![dec_char_of(n)]);
        assert(is_dec_digit(dec_char_of(n)) && dec_digit_val(dec_char_of(n)) == n);
        assert(s.drop_last() =~= Seq::<char>::empty());
        assert(dec_val(s.drop_last()) == 0);
        assert(s.last() == dec_char_of(n));
        assert(dec_val(s) == dec_val(s.drop_last()) * 10 + dec_digit_val(s.last()));
    } else {
        lemma_dec_round_trip(n / 10);
        let s = dec_str_of(n);
        assert(s == dec_str_of(n / 10).push(dec_char_of(n % 10)));
        assert(s.drop_last() =~= dec_str_of(n / 10));
        assert(s.last() == dec_char_of(n % 10));
        assert(is_dec_digit(dec_char_of(n % 10)) && dec_digit_val(dec_char_of(n % 10)) == n % 10);
        assert(dec_val(s) == (n / 10) * 10 + n % 10);
        assert(forall|i: int| 0 <= i < s.len() ==> is_dec_digit(#[trigger] s[i])) by {
            assert(forall|i: int|
                0 <= i < s.len() - 1 ==> #[trigger] s[i] == dec_str_of(n / 10)[i]);
        };
    }
}

// ---------------------------------------------------------------------
// Framing
// ---------------------------------------------------------------------

/// `s` without a leading "0x" or "0X", unchanged when the prefix is
/// absent or the string is shorter than two characters.
pub open spec fn spec_strip_hex_prefix(s: Seq<char>) -> Seq<char> {
    if s.len() >= 2 && s[0] == '0' && (s[1] == 'x' || s[1] == 'X') {
        s.skip(2)
    } else {
        s
    }
}

/// What remains of call data after the prefix and the four selector
/// bytes (eight hex characters); `None` when fewer than eight characters
/// remain.
pub open spec fn spec_strip_selector(s: Seq<char>) -> Option<Seq<char>> {
    let t = spec_strip_hex_prefix(s);
    if t.len() >= 8 {
        Some(t.skip(8))
    } else {
        None
    }
}

/// Removes a leading "0x"/"0X" from a hex string if present.
pub fn remove_hex_prefix<'a>(s: &'a str) -> (r: &'a str)
    ensures
        r@ == spec_strip_hex_prefix(s@),
{
    let n = s.unicode_len();
    if n >= 2 {
        let c0 = s.get_char(0);
        let c1 = s.get_char(1);
        if c0 == '0' && (c1 == 'x' || c1 == 'X') {
            let r = s.substring_char(2, n);
            proof {
                assert(r@ =~= s@.skip(2));
            }
            return r;
        }
    }
    s
}

/// Removes the prefix and the four-byte function selector from call
/// data; `None` when fewer than eight hex characters remain.
pub fn remove_bytes4<'a>(s: &'a str) -> (r: Option<&'a str>)
    ensures
        r is Some <==> spec_strip_selector(s@) is Some,
        r matches Some(t) ==> Some(t@) == spec_strip_selector(s@),
{
    let stripped = remove_hex_prefix(s);
    let n = stripped.unicode_len();
    if n >= 8 {
        let r = stripped.substring_char(8, n);
        proof {
            assert(r@ =~= stripped@.skip(8));
        }
        Some(r)
    } else {
        None
    }
}

// ---------------------------------------------------------------------
// String helpers
// ---------------------------------------------------------------------

/// The characters of a string, in order.
pub fn chars_of(s: &str) -> (v: Vec<char>)
    ensures
        v@ == s@,
{
    let n = s.unicode_len();
    let mut v: Vec<char> = Vec::new();
    let mut i: usize = 0;
    while i < n
        invariant
            i <= n == s@.len(),
            v@ =~= s@.take(i as int),
        decreases n - i,
    {
        v.push(s.get_char(i));
        proof {
            assert(v@ =~= s@.take(i + 1));
        }
        i = i + 1;
    }
    proof {
        assert(s@.take(n as int) =~= s@);
    }
    v
}

/// Whether two strings hold the same characters.
pub fn str_eq(a: &str, b: &str) -> (r: bool)
    ensures
        r == (a@ == b@),
{
    let na = a.unicode_len();
    let nb = b.unicode_len();
    if na != nb {
        return false;
    }
    let mut i: usize = 0;
    while i < na
        invariant
            i <= na == a@.len(),
            na == nb == b@.len(),
            forall|k: int| 0 <= k < i ==> a@[k] == b@[k],
        decreases na - i,
    {
        if a.get_char(i) != b.get_char(i) {
            return false;
        }
        i = i + 1;
    }
    proof {
        assert(a@ =~= b@);
    }
    true
}

/// Relies on `String`'s `FromIterator` impl: collecting chars yields the
/// string with exactly those characters.
#[verifier::external_body]
pub fn chars_to_string(v: &Vec<char>) -> (s: String)
    ensures
        s@ == v@,
{
    v.iter().collect()
}

} // verus!
