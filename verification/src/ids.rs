//! Decimal text of numbers and the identifiers built from it: turbine
//! labels and alarm ids.

use vstd::prelude::*;

verus! {

/// Text of one decimal digit.
pub open spec fn digit_text(d: nat) -> Seq<char> {
    if d == 0 {
        "0"@
    } else if d == 1 {
        "1"@
    } else if d == 2 {
        "2"@
    } else if d == 3 {
        "3"@
    } else if d == 4 {
        "4"@
    } else if d == 5 {
        "5"@
    } else if d == 6 {
        "6"@
    } else if d == 7 {
        "7"@
    } else if d == 8 {
        "8"@
    } else {
        "9"@
    }
}

/// Decimal text of `n`, without leading zeros.
pub open spec fn decimal(n: nat) -> Seq<char>
    decreases n,
{
    if n < 10 {
        digit_text(n)
    } else {
        decimal(n / 10) + digit_text(n % 10)
    }
}

/// Number of decimal digits of `n`.
pub open spec fn digit_count(n: nat) -> nat
    decreases n,
{
    if n < 10 {
        1
    } else {
        digit_count(n / 10) + 1
    }
}

/// `k` zero characters.
pub open spec fn zeros(k: nat) -> Seq<char>
    decreases k,
{
    if k == 0 {
        Seq::empty()
    } else {
        zeros((k - 1) as nat) + "0"@
    }
}

/// Decimal text of `n` padded with zeros on the left to `width` digits.
pub open spec fn padded_decimal(n: nat, width: nat) -> Seq<char> {
    if digit_count(n) < width {
        zeros((width - digit_count(n)) as nat) + decimal(n)
    } else {
        decimal(n)
    }
}

/// Decimal text of a signed number.
pub open spec fn signed_decimal(x: int) -> Seq<char> {
    if x < 0 {
        "-"@ + decimal((-x) as nat)
    } else {
        decimal(x as nat)
    }
}

fn digit_string(d: u64) -> (r: String)
    requires
        d < 10,
    ensures
        r@ == digit_text(d as nat),
{
    if d == 0 {
        String::from_str("0")
    } else if d == 1 {
        String::from_str("1")
    } else if d == 2 {
        String::from_str("2")
    } else if d == 3 {
        String::from_str("3")
    } else if d == 4 {
        String::from_str("4")
    } else if d == 5 {
        String::from_str("5")
    } else if d == 6 {
        String::from_str("6")
    } else if d == 7 {
        String::from_str("7")
    } else if d == 8 {
        String::from_str("8")
    } else {
        String::from_str("9")
    }
}

/// Decimal text of `n`.
pub fn decimal_string(n: u64) -> (r: String)
    ensures
        r@ == decimal(n as nat),
    decreases n,
{
    if n < 10 {
        digit_string(n)
    } else {
        let mut s = decimal_string(n / 10);
        let d = digit_string(n % 10);
        s.append(d.as_str());
        s
    }
}

/// Decimal text of a signed number, with a leading minus sign when it is
/// negative.
pub fn signed_decimal_string(x: i64) -> (r: String)
    ensures
        r@ == signed_decimal(x as int),
{
    if x < 0 {
        let m: u64 = (-(x as i128)) as u64;
        let mut s = String::from_str("-");
        let digits = decimal_string(m);
        s.append(digits.as_str());
        s
    } else {
        decimal_string(x as u64)
    }
}

/// Number of decimal digits of `n`.
fn count_digits(n: u64) -> (r: u64)
    ensures
        r == digit_count(n as nat),
    decreases n,
{
    if n < 10 {
        1
    } else {
        let c = count_digits(n / 10);
        proof {
            lemma_digit_count_small((n / 10) as nat);
        }
        c + 1
    }
}

proof fn lemma_digit_count_small(n: nat)
    ensures
        digit_count(n) <= n + 1,
    decreases n,
{
    if n >= 10 {
        lemma_digit_count_small(n / 10);
    }
}

/// Decimal text of `n` padded with zeros on the left to `width` digits.
pub fn padded_decimal_string(n: u64, width: u64) -> (r: String)
    ensures
        r@ == padded_decimal(n as nat, width as nat),
{
    let count = count_digits(n);
    let digits = decimal_string(n);
    if count < width {
        let mut s = String::new();
        let mut k: u64 = 0;
        while k < width - count
            invariant
                count < width,
                k <= width - count,
                s@ == zeros(k as nat),
            decreases width - count - k,
        {
            s.append("0");
            k = k + 1;
        }
        s.append(digits.as_str());
        s
    } else {
        digits
    }
}

/// Label of turbine number `n`: `WT` and the number on three digits.
pub open spec fn turbine_label(n: nat) -> Seq<char> {
    "WT"@ + padded_decimal(n, 3)
}

/// Builds the label of turbine number `n`.
pub fn turbine_label_string(n: u64) -> (r: String)
    ensures
        r@ == turbine_label(n as nat),
{
    let mut s = String::from_str("WT");
    let num = padded_decimal_string(n, 3);
    s.append(num.as_str());
    s
}

/// A lower-case hexadecimal digit.
pub open spec fn lower_hex_digit(c: char) -> bool {
    ('0' <= c && c <= '9') || ('a' <= c && c <= 'f')
}

/// Text of a random (version 4, RFC 4122 variant) UUID in its simple form:
/// 32 lower-case hex digits, the 13th being `4` and the 17th one of `8`,
/// `9`, `a`, `b`.
pub open spec fn uuid_v4_simple_text(s: Seq<char>) -> bool {
    &&& s.len() == 32
    &&& forall|i: int| 0 <= i < 32 ==> lower_hex_digit(#[trigger] s[i])
    &&& s[12] == '4'
    &&& (s[16] == '8' || s[16] == '9' || s[16] == 'a' || s[16] == 'b')
}

/// Whether position `i` of a hyphenated UUID holds a hyphen.
pub open spec fn uuid_hyphen_at(i: int) -> bool {
    i == 8 || i == 13 || i == 18 || i == 23
}

/// Text of a random (version 4, RFC 4122 variant) UUID in its hyphenated
/// form: groups of 8, 4, 4, 4 and 12 lower-case hex digits joined by
/// hyphens, the version digit `4` and the variant digit one of `8`, `9`,
/// `a`, `b`.
pub open spec fn uuid_v4_hyphenated_text(s: Seq<char>) -> bool {
    &&& s.len() == 36
    &&& forall|i: int|
        0 <= i < 36 ==> if uuid_hyphen_at(i) {
            s[i] == '-'
        } else {
            lower_hex_digit(#[trigger] s[i])
        }
    &&& s[14] == '4'
    &&& (s[19] == '8' || s[19] == '9' || s[19] == 'a' || s[19] == 'b')
}

/// Lower-case hex digit of a nibble.
pub open spec fn hex_digit(n: u8) -> char {
    if n < 10 {
        (n + 48) as char
    } else {
        (n + 87) as char
    }
}

/// Byte `i` of a random (version 4, RFC 4122 variant) UUID made from 16
/// random bytes: byte 6 gets the version nibble 4 in its high half, byte 8
/// gets the variant bits `10` at its top, the others are kept.
pub open spec fn v4_byte(bytes: Seq<u8>, i: int) -> u8 {
    if i == 6 {
        (bytes[6] & 0x0f) | 0x40
    } else if i == 8 {
        (bytes[8] & 0x3f) | 0x80
    } else {
        bytes[i]
    }
}

/// Simple form of the version 4 UUID made from 16 random bytes: two
/// lower-case hex digits per byte, high nibble first.
pub open spec fn uuid_simple_of(bytes: Seq<u8>) -> Seq<char> {
    Seq::new(
        32,
        |k: int|
            if k % 2 == 0 {
                hex_digit(v4_byte(bytes, k / 2) >> 4)
            } else {
                hex_digit(v4_byte(bytes, k / 2) & 0x0f)
            },
    )
}

/// Number of hyphens before position `i` of a hyphenated UUID.
pub open spec fn hyphens_before(i: int) -> int {
    if i < 8 {
        0
    } else if i < 13 {
        1
    } else if i < 18 {
        2
    } else if i < 23 {
        3
    } else {
        4
    }
}

/// Hyphenated form of a simple UUID text: its digits in groups of 8, 4, 4,
/// 4 and 12 joined by hyphens.
pub open spec fn hyphenate(s: Seq<char>) -> Seq<char> {
    Seq::new(36, |i: int| if uuid_hyphen_at(i) { '-' } else { s[i - hyphens_before(i)] })
}

/// Hyphenated form of the version 4 UUID made from 16 random bytes.
pub open spec fn uuid_hyphenated_of(bytes: Seq<u8>) -> Seq<char> {
    hyphenate(uuid_simple_of(bytes))
}

proof fn lemma_hex_digit(n: u8)
    requires
        n < 16,
    ensures
        lower_hex_digit(hex_digit(n)),
{
}

/// The simple form of a UUID made from 16 bytes has the shape of a random
/// version 4 UUID, and so does its hyphenated form.
pub proof fn lemma_uuid_shape(bytes: Seq<u8>)
    requires
        bytes.len() == 16,
    ensures
        uuid_v4_simple_text(uuid_simple_of(bytes)),
        uuid_v4_hyphenated_text(uuid_hyphenated_of(bytes)),
{
    let s = uuid_simple_of(bytes);
    assert forall|k: int| 0 <= k < 32 implies lower_hex_digit(#[trigger] s[k]) by {
        let b = v4_byte(bytes, k / 2);
        assert(b >> 4 < 16) by (bit_vector);
        assert(b & 0x0f < 16) by (bit_vector);
        if k % 2 == 0 {
            lemma_hex_digit(b >> 4);
        } else {
            lemma_hex_digit(b & 0x0f);
        }
    }
    let b6 = bytes[6];
    let b8 = bytes[8];
    assert(((b6 & 0x0f) | 0x40) >> 4 == 4) by (bit_vector);
    assert(8 <= ((b8 & 0x3f) | 0x80) >> 4 <= 11) by (bit_vector);
    assert(s[12] == hex_digit(4));
    let v = ((b8 & 0x3f) | 0x80) >> 4;
    assert(s[16] == hex_digit(v));
    let h = uuid_hyphenated_of(bytes);
    assert forall|i: int| 0 <= i < 36 implies if uuid_hyphen_at(i) {
        h[i] == '-'
    } else {
        lower_hex_digit(#[trigger] h[i])
    } by {
        if !uuid_hyphen_at(i) {
            assert(h[i] == s[i - hyphens_before(i)]);
        }
    }
    assert(h[14] == s[12]);
    assert(h[19] == s[16]);
}

/// The simple form of the version 4 UUID made from 16 bytes, from
/// `uuid::Builder::from_random_bytes` (which sets the version and variant
/// bits), `into_uuid`, `Uuid::simple` and its `Display` (two lower-case
/// hex digits per byte).
#[verifier::external_body]
fn uuid_simple_text(random: [u8; 16]) -> (r: String)
    ensures
        r@ == uuid_simple_of(random@),
{
    uuid::Builder::from_random_bytes(random).into_uuid().simple().to_string()
}

/// The hyphenated form of the version 4 UUID made from 16 bytes, from
/// `uuid::Builder::from_random_bytes`, `into_uuid` and the `Display` of
/// `Uuid` (the lower-case simple digits in groups of 8, 4, 4, 4 and 12
/// joined by hyphens).
#[verifier::external_body]
fn uuid_hyphenated_text(random: [u8; 16]) -> (r: String)
    ensures
        r@ == uuid_hyphenated_of(random@),
{
    uuid::Builder::from_random_bytes(random).into_uuid().to_string()
}

/// Alarm id of the alarm engine: `ALARM-` and a UUID.
pub fn engine_alarm_id(uuid: &str) -> (r: String)
    ensures
        r@ == "ALARM-"@ + uuid@,
{
    let mut s = String::from_str("ALARM-");
    s.append(uuid);
    s
}

/// Alarm id of the alarm pusher: `ALARM-`, the time in seconds, `-`, and a
/// UUID.
pub fn pusher_alarm_id(secs: i64, uuid: &str) -> (r: String)
    ensures
        r@ == "ALARM-"@ + signed_decimal(secs as int) + "-"@ + uuid@,
{
    let mut s = String::from_str("ALARM-");
    let t = signed_decimal_string(secs);
    s.append(t.as_str());
    s.append("-");
    s.append(uuid);
    s
}

/// A new alarm id of the alarm engine: `ALARM-` and the hyphenated version
/// 4 UUID made from 16 random bytes.
pub fn new_engine_alarm_id(random: [u8; 16]) -> (r: String)
    ensures
        r@ == "ALARM-"@ + uuid_hyphenated_of(random@),
        r@.len() == 42,
        uuid_v4_hyphenated_text(r@.subrange(6, 42)),
{
    let u = uuid_hyphenated_text(random);
    let r = engine_alarm_id(u.as_str());
    proof {
        reveal_strlit("ALARM-");
        lemma_uuid_shape(random@);
        assert(r@.subrange(6, 42) =~= u@);
    }
    r
}

/// A new alarm id of the alarm pusher: `ALARM-`, the time `secs` in whole
/// seconds since the epoch, `-`, and the simple version 4 UUID made from 16
/// random bytes.
pub fn new_pusher_alarm_id(secs: i64, random: [u8; 16]) -> (r: String)
    ensures
        r@ == "ALARM-"@ + signed_decimal(secs as int) + "-"@ + uuid_simple_of(random@),
        uuid_v4_simple_text(r@.subrange(r@.len() - 32, r@.len() as int)),
{
    let u = uuid_simple_text(random);
    let r = pusher_alarm_id(secs, u.as_str());
    proof {
        lemma_uuid_shape(random@);
        assert(r@.subrange(r@.len() - 32, r@.len() as int) =~= u@);
    }
    r
}

/// Three decimal digits of `n`, most significant first.
pub open spec fn three_digits(n: nat) -> Seq<char> {
    digit_text(n / 100) + digit_text((n / 10) % 10) + digit_text(n % 10)
}

proof fn lemma_digit_texts()
    ensures
        forall|d: nat| d < 10 ==> (#[trigger] digit_text(d)).len() == 1,
        forall|a: nat, b: nat|
            a < 10 && b < 10 && (#[trigger] digit_text(a))[0] == (#[trigger] digit_text(b))[0]
                ==> a == b,
{
    reveal_strlit("0");
    reveal_strlit("1");
    reveal_strlit("2");
    reveal_strlit("3");
    reveal_strlit("4");
    reveal_strlit("5");
    reveal_strlit("6");
    reveal_strlit("7");
    reveal_strlit("8");
    reveal_strlit("9");
}

proof fn lemma_padded_three(n: nat)
    requires
        n < 1000,
    ensures
        padded_decimal(n, 3) == three_digits(n),
{
    reveal_strlit("0");
    assert(zeros(0) =~= Seq::<char>::empty());
    assert(zeros(1) =~= "0"@);
    assert(zeros(2) =~= "0"@ + "0"@);
    if n < 10 {
        assert(digit_count(n) == 1);
        assert(decimal(n) == digit_text(n));
        assert(n / 100 == 0 && (n / 10) % 10 == 0 && n % 10 == n);
        assert(padded_decimal(n, 3) =~= three_digits(n));
    } else if n < 100 {
        assert(digit_count(n / 10) == 1);
        assert(digit_count(n) == 2);
        assert(decimal(n / 10) == digit_text(n / 10));
        assert(decimal(n) == digit_text(n / 10) + digit_text(n % 10));
        assert(n / 100 == 0 && (n / 10) % 10 == n / 10);
        assert(padded_decimal(n, 3) =~= three_digits(n));
    } else {
        assert(n / 10 / 10 == n / 100);
        assert(n / 10 >= 10 && n / 10 < 100);
        assert(digit_count(n / 10 / 10) == 1);
        assert(digit_count(n / 10) == 2);
        assert(digit_count(n) == 3);
        assert(decimal(n / 10 / 10) == digit_text(n / 10 / 10));
        assert(decimal(n / 10) == digit_text(n / 10 / 10) + digit_text((n / 10) % 10));
        assert(decimal(n) == decimal(n / 10) + digit_text(n % 10));
        assert(padded_decimal(n, 3) =~= three_digits(n));
    }
}

/// Turbine labels of numbers below 1000 are distinct.
pub proof fn lemma_turbine_label_injective(n: nat, m: nat)
    requires
        n < 1000,
        m < 1000,
        turbine_label(n) == turbine_label(m),
    ensures
        n == m,
{
    reveal_strlit("WT");
    lemma_digit_texts();
    lemma_padded_three(n);
    lemma_padded_three(m);
    let pn = three_digits(n);
    let pm = three_digits(m);
    assert(pn == turbine_label(n).subrange(2, 5));
    assert(pm == turbine_label(m).subrange(2, 5));
    assert(pn[0] == digit_text(n / 100)[0]);
    assert(pm[0] == digit_text(m / 100)[0]);
    assert(pn[1] == digit_text((n / 10) % 10)[0]);
    assert(pm[1] == digit_text((m / 10) % 10)[0]);
    assert(pn[2] == digit_text(n % 10)[0]);
    assert(pm[2] == digit_text(m % 10)[0]);
    assert(n == 100 * (n / 100) + 10 * ((n / 10) % 10) + n % 10);
    assert(m == 100 * (m / 100) + 10 * ((m / 10) % 10) + m % 10);
}

} // verus!
