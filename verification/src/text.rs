//! Byte-level text primitives shared by every canonical record format:
//! ASCII and UTF-8 conversion, lowercase hexadecimal and decimal numbers.
use vstd::prelude::*;
use vstd::utf8::*;

verus! {

broadcast use vstd::utf8::group_utf8_lib;

// ---------------------------------------------------------------------------
// ASCII and UTF-8
// ---------------------------------------------------------------------------

/// Every byte is a 7-bit ASCII code.
pub open spec fn is_ascii_bytes(b: Seq<u8>) -> bool {
    forall|i: int| 0 <= i < b.len() ==> #[trigger] b[i] < 128
}

/// The characters that an ASCII byte sequence spells.
pub open spec fn ascii_chars(b: Seq<u8>) -> Seq<char> {
    Seq::new(b.len(), |i: int| b[i] as char)
}

/// The UTF-8 bytes of a character sequence (what `str::as_bytes` yields).
pub open spec fn utf8(s: Seq<char>) -> Seq<u8> {
    encode_utf8(s)
}

/// The characters a byte sequence decodes to, if it is valid UTF-8.
pub open spec fn utf8_text(b: Seq<u8>) -> Option<Seq<char>> {
    if valid_utf8(b) {
        Some(decode_utf8(b))
    } else {
        None
    }
}

pub proof fn lemma_ascii_chars(b: Seq<u8>)
    requires
        is_ascii_bytes(b),
    ensures
        is_ascii_chars(ascii_chars(b)),
        utf8(ascii_chars(b)) == b,
        valid_utf8(b),
        decode_utf8(b) == ascii_chars(b),
        utf8_text(b) == Some(ascii_chars(b)),
{
    let c = ascii_chars(b);
    assert forall|i: int| 0 <= i < c.len() implies '\0' <= #[trigger] c[i] <= '\u{7f}' by {
        assert(b[i] < 128);
    }
    is_ascii_chars_encode_utf8(c);
    assert forall|i: int| 0 <= i < c.len() implies #[trigger] encode_utf8(c)[i] == b[i] by {
        let x = b[i];
        assert(x < 128);
        assert(((x as char) as u8) == x);
    }
    assert(encode_utf8(c) =~= b);
    encode_utf8_valid_utf8(c);
    encode_utf8_decode_utf8(c);
}

pub proof fn lemma_utf8_round_trip(s: Seq<char>)
    ensures
        utf8_text(utf8(s)) == Some(s),
{
    encode_utf8_valid_utf8(s);
    encode_utf8_decode_utf8(s);
}

/// Wraps `String::from_utf8`: the string exactly when the bytes are valid UTF-8.
#[verifier::external_body]
fn string_from_utf8(bytes: Vec<u8>) -> (r: Option<String>)
    ensures
        r is Some <==> valid_utf8(bytes@),
        r matches Some(s) ==> s@ == decode_utf8(bytes@),
{
    String::from_utf8(bytes).ok()
}

/// Decodes owned bytes as UTF-8 text.
pub fn text_from_utf8(bytes: Vec<u8>) -> (r: Option<String>)
    ensures
        r matches Some(s) ==> utf8_text(bytes@) == Some(s@),
        r is None ==> utf8_text(bytes@) is None,
{
    string_from_utf8(bytes)
}

/// Turns ASCII bytes into the string that spells them.
pub fn ascii_string(bytes: Vec<u8>) -> (s: String)
    requires
        is_ascii_bytes(bytes@),
    ensures
        s@ == ascii_chars(bytes@),
        utf8(s@) == bytes@,
{
    proof {
        lemma_ascii_chars(bytes@);
    }
    let ghost b = bytes@;
    match string_from_utf8(bytes) {
        Some(s) => s,
        None => {
            assert(false);
            String::new()
        },
    }
}

/// Turns valid UTF-8 bytes into the string they encode.
pub fn utf8_string(bytes: Vec<u8>) -> (s: String)
    requires
        valid_utf8(bytes@),
    ensures
        utf8(s@) == bytes@,
{
    let ghost b = bytes@;
    match string_from_utf8(bytes) {
        Some(s) => {
            proof {
                decode_utf8_encode_utf8(b);
            }
            s
        },
        None => {
            assert(false);
            String::new()
        },
    }
}

/// Valid UTF-8 followed by ASCII is valid UTF-8.
/// Appends `tail` to `out`.
pub fn push_all(out: &mut Vec<u8>, tail: &[u8])
    ensures
        final(out)@ == old(out)@ + tail@,
{
    let mut i: usize = 0;
    while i < tail.len()
        invariant
            i <= tail.len(),
            out@ == old(out)@ + tail@.take(i as int),
        decreases tail.len() - i,
    {
        out.push(tail[i]);
        i = i + 1;
        assert(tail@.take(i as int) =~= tail@.take(i - 1).push(tail@[i - 1]));
    }
    assert(tail@.take(tail.len() as int) =~= tail@);
}

/// ASCII letters and digits.
pub open spec fn is_alnum(b: u8) -> bool {
    (48 <= b <= 57) || (65 <= b <= 90) || (97 <= b <= 122)
}

pub fn byte_is_alnum(b: u8) -> (r: bool)
    ensures
        r == is_alnum(b),
{
    (48 <= b && b <= 57) || (65 <= b && b <= 90) || (97 <= b && b <= 122)
}

/// Whether every byte is an ASCII letter or digit, or one of `extra`.
pub fn all_alnum_or(value: &[u8], extra: &[u8]) -> (r: bool)
    ensures
        r == forall|i: int|
            0 <= i < value@.len() ==> #[trigger] is_alnum(value@[i]) || extra@.contains(value@[i]),
{
    let mut i: usize = 0;
    while i < value.len()
        invariant
            i <= value.len(),
            forall|k: int| 0 <= k < i ==> #[trigger] is_alnum(value@[k]) || extra@.contains(value@[k]),
        decreases value.len() - i,
    {
        let b = value[i];
        if !byte_is_alnum(b) {
            let mut j: usize = 0;
            let mut found = false;
            while j < extra.len()
                invariant
                    j <= extra.len(),
                    found == (exists|m: int| 0 <= m < j && extra@[m] == b),
                decreases extra.len() - j,
            {
                if extra[j] == b {
                    found = true;
                }
                j = j + 1;
            }
            if !found {
                assert(!extra@.contains(b));
                return false;
            }
        }
        i = i + 1;
    }
    true
}

/// Printable ASCII other than the space (`u8::is_ascii_graphic`).
pub open spec fn is_graphic(b: u8) -> bool {
    33 <= b <= 126
}

/// The texts held by a vector of strings.
pub open spec fn texts_view(v: Seq<String>) -> Seq<Seq<char>> {
    v.map_values(|s: String| s@)
}

/// A copy of a list of texts.
pub fn copy_texts(v: &Vec<String>) -> (r: Vec<String>)
    ensures
        texts_view(r@) == texts_view(v@),
{
    let mut r: Vec<String> = Vec::new();
    let mut i: usize = 0;
    while i < v.len()
        invariant
            i <= v@.len(),
            texts_view(r@) == texts_view(v@).take(i as int),
        decreases v.len() - i,
    {
        let ghost before = r@;
        let t = v[i].clone();
        r.push(t);
        proof {
            assert(r@ =~= before.push(t));
            assert(texts_view(r@) =~= texts_view(before).push(t@));
        }
        i = i + 1;
        assert(texts_view(r@) =~= texts_view(v@).take(i as int));
    }
    assert(texts_view(v@).take(v@.len() as int) =~= texts_view(v@));
    r
}

/// Equality of two lists of texts, item by item.
pub fn same_texts(a: &Vec<String>, b: &Vec<String>) -> (r: bool)
    ensures
        r == (texts_view(a@) == texts_view(b@)),
{
    if a.len() != b.len() {
        assert(texts_view(a@).len() != texts_view(b@).len());
        return false;
    }
    let mut i: usize = 0;
    while i < a.len()
        invariant
            a.len() == b.len(),
            i <= a.len(),
            forall|j: int| 0 <= j < i ==> #[trigger] texts_view(a@)[j] == texts_view(b@)[j],
        decreases a.len() - i,
    {
        if a[i] != b[i] {
            assert(texts_view(a@)[i as int] != texts_view(b@)[i as int]);
            return false;
        }
        i = i + 1;
    }
    assert(texts_view(a@) =~= texts_view(b@));
    true
}

/// Whether every byte is printable ASCII other than the space.
pub fn all_graphic(value: &[u8]) -> (r: bool)
    ensures
        r == forall|i: int| 0 <= i < value@.len() ==> #[trigger] is_graphic(value@[i]),
{
    let mut i: usize = 0;
    while i < value.len()
        invariant
            i <= value.len(),
            forall|k: int| 0 <= k < i ==> #[trigger] is_graphic(value@[k]),
        decreases value.len() - i,
    {
        if !(33 <= value[i] && value[i] <= 126) {
            assert(!is_graphic(value@[i as int]));
            return false;
        }
        i = i + 1;
    }
    true
}

/// `s` ends with `suffix`.
pub open spec fn has_suffix(s: Seq<u8>, suffix: Seq<u8>) -> bool {
    suffix.len() <= s.len() && s.skip(s.len() - suffix.len()) == suffix
}

pub fn ends_with(s: &[u8], suffix: &[u8]) -> (r: bool)
    ensures
        r == has_suffix(s@, suffix@),
{
    if suffix.len() > s.len() {
        return false;
    }
    let start = s.len() - suffix.len();
    let mut i: usize = 0;
    while i < suffix.len()
        invariant
            start + suffix.len() == s.len(),
            i <= suffix.len(),
            forall|j: int| 0 <= j < i ==> s@[start + j] == suffix@[j],
        decreases suffix.len() - i,
    {
        if s[start + i] != suffix[i] {
            assert(s@.skip(start as int)[i as int] != suffix@[i as int]);
            return false;
        }
        i = i + 1;
    }
    assert(s@.skip(start as int) =~= suffix@);
    true
}

/// `s` begins with `prefix`.
pub open spec fn has_prefix(s: Seq<u8>, prefix: Seq<u8>) -> bool {
    prefix.len() <= s.len() && s.take(prefix.len() as int) == prefix
}

pub fn starts_with(s: &[u8], prefix: &[u8]) -> (r: bool)
    ensures
        r == has_prefix(s@, prefix@),
{
    if prefix.len() > s.len() {
        return false;
    }
    let mut i: usize = 0;
    while i < prefix.len()
        invariant
            prefix.len() <= s.len(),
            i <= prefix.len(),
            forall|j: int| 0 <= j < i ==> s@[j] == prefix@[j],
        decreases prefix.len() - i,
    {
        if s[i] != prefix[i] {
            assert(s@.take(prefix.len() as int)[i as int] != prefix@[i as int]);
            return false;
        }
        i = i + 1;
    }
    assert(s@.take(prefix.len() as int) =~= prefix@);
    true
}

/// Byte-wise equality of two slices.
pub fn bytes_equal(a: &[u8], b: &[u8]) -> (r: bool)
    ensures
        r == (a@ == b@),
{
    if a.len() != b.len() {
        return false;
    }
    let mut i: usize = 0;
    while i < a.len()
        invariant
            a.len() == b.len(),
            i <= a.len(),
            forall|j: int| 0 <= j < i ==> a@[j] == b@[j],
        decreases a.len() - i,
    {
        if a[i] != b[i] {
            return false;
        }
        i = i + 1;
    }
    assert(a@ =~= b@);
    true
}

/// Equality of two texts, decided on their UTF-8 bytes.
pub fn str_eq(a: &str, b: &str) -> (r: bool)
    ensures
        r == (a@ == b@),
{
    let r = bytes_equal(a.as_bytes(), b.as_bytes());
    proof {
        lemma_utf8_round_trip(a@);
        lemma_utf8_round_trip(b@);
    }
    r
}

// ---------------------------------------------------------------------------
// Lowercase hexadecimal
// ---------------------------------------------------------------------------

/// The lowercase hexadecimal digit for a value below 16.
pub open spec fn hex_digit(v: u8) -> u8 {
    if v < 10 {
        (48 + v) as u8
    } else {
        (87 + v) as u8
    }
}

/// Two lowercase hexadecimal digits per byte, high nibble first.
pub open spec fn hex_encode(b: Seq<u8>) -> Seq<u8> {
    Seq::new(
        2 * b.len(),
        |i: int|
            if i % 2 == 0 {
                hex_digit(b[i / 2] / 16)
            } else {
                hex_digit(b[i / 2] % 16)
            },
    )
}

/// The value of one lowercase hexadecimal digit.
pub open spec fn nibble_value(byte: u8) -> Option<u8> {
    if 48 <= byte <= 57 {
        Some((byte - 48) as u8)
    } else if 97 <= byte <= 102 {
        Some((byte - 87) as u8)
    } else {
        None
    }
}

/// The value of one hexadecimal digit of either case.
pub open spec fn any_case_nibble_value(byte: u8) -> Option<u8> {
    if 65 <= byte <= 70 {
        Some((byte - 55) as u8)
    } else {
        nibble_value(byte)
    }
}

pub open spec fn digit_value(byte: u8, upper_ok: bool) -> Option<u8> {
    if upper_ok {
        any_case_nibble_value(byte)
    } else {
        nibble_value(byte)
    }
}

/// Bytes from pairs of hexadecimal digits; `None` for an odd length or a non-digit.
pub open spec fn hex_decode_with(h: Seq<u8>, upper_ok: bool) -> Option<Seq<u8>> {
    if h.len() % 2 == 0 && forall|i: int| 0 <= i < h.len() ==> (#[trigger] digit_value(h[i], upper_ok)) is Some {
        Some(
            Seq::new(
                h.len() / 2,
                |i: int|
                    (digit_value(h[2 * i], upper_ok)->0 * 16 + digit_value(
                        h[2 * i + 1],
                        upper_ok,
                    )->0) as u8,
            ),
        )
    } else {
        None
    }
}

/// Text encoded as the lowercase hexadecimal of its UTF-8 bytes.
pub open spec fn hex_of_text(s: Seq<char>) -> Seq<u8> {
    hex_encode(utf8(s))
}

/// Text decoded from hexadecimal UTF-8; `None` when either layer fails.
pub open spec fn text_of_hex_with(h: Seq<u8>, upper_ok: bool) -> Option<Seq<char>> {
    match hex_decode_with(h, upper_ok) {
        Some(b) => utf8_text(b),
        None => None,
    }
}

pub open spec fn text_of_hex(h: Seq<u8>) -> Option<Seq<char>> {
    text_of_hex_with(h, false)
}

pub proof fn lemma_hex_digit(v: u8)
    requires
        0 <= v < 16,
    ensures
        nibble_value(hex_digit(v)) == Some(v as u8),
        any_case_nibble_value(hex_digit(v)) == Some(v as u8),
        hex_digit(v) != 10,
        hex_digit(v) < 128,
{
}

pub proof fn lemma_hex_encode_ascii(b: Seq<u8>)
    ensures
        is_ascii_bytes(hex_encode(b)),
        forall|i: int| 0 <= i < hex_encode(b).len() ==> #[trigger] hex_encode(b)[i] != 10,
        forall|i: int| 0 <= i < hex_encode(b).len() ==> #[trigger] hex_encode(b)[i] != 61,
{
    let h = hex_encode(b);
    assert forall|i: int| 0 <= i < h.len() implies #[trigger] h[i] < 128 && h[i] != 10 && h[i]
        != 61 by {
        let x = b[i / 2];
        lemma_hex_digit(x / 16);
        lemma_hex_digit(x % 16);
    }
}

/// Decoding the hexadecimal of any bytes gives the bytes back, in either case mode.
pub proof fn lemma_hex_round_trip(b: Seq<u8>, upper_ok: bool)
    ensures
        hex_decode_with(hex_encode(b), upper_ok) == Some(b),
{
    let h = hex_encode(b);
    assert forall|i: int| 0 <= i < h.len() implies (#[trigger] digit_value(h[i], upper_ok)) is Some by {
        let x = b[i / 2];
        lemma_hex_digit(x / 16);
        lemma_hex_digit(x % 16);
    }
    assert(h.len() % 2 == 0);
    let d = hex_decode_with(h, upper_ok)->0;
    assert forall|j: int| 0 <= j < b.len() implies #[trigger] d[j] == b[j] by {
        let x = b[j];
        lemma_hex_digit(x / 16);
        lemma_hex_digit(x % 16);
        assert((2 * j) / 2 == j);
        assert((2 * j + 1) / 2 == j);
        assert((2 * j) % 2 == 0);
        assert((2 * j + 1) % 2 == 1);
        assert(h[2 * j] == hex_digit(x / 16));
        assert(h[2 * j + 1] == hex_digit(x % 16));
    }
    assert(d =~= b);
}

/// Text written as hexadecimal of its UTF-8 bytes reads back unchanged.
pub proof fn lemma_hex_text_round_trip(s: Seq<char>, upper_ok: bool)
    ensures
        text_of_hex_with(hex_of_text(s), upper_ok) == Some(s),
{
    lemma_hex_round_trip(utf8(s), upper_ok);
    lemma_utf8_round_trip(s);
}

/// Appends the lowercase hexadecimal of `value` to `out`.
pub fn push_hex(out: &mut Vec<u8>, value: &[u8])
    ensures
        final(out)@ == old(out)@ + hex_encode(value@),
{
    let mut i: usize = 0;
    while i < value.len()
        invariant
            i <= value.len(),
            out@ == old(out)@ + hex_encode(value@.take(i as int)),
        decreases value.len() - i,
    {
        let x = value[i];
        let high = x / 16;
        let low = x % 16;
        out.push(if high < 10 { 48 + high } else { 87 + high });
        out.push(if low < 10 { 48 + low } else { 87 + low });
        let ghost prev = value@.take(i as int);
        i = i + 1;
        let ghost next = value@.take(i as int);
        assert(hex_encode(next) =~= hex_encode(prev) + seq![hex_digit(x / 16), hex_digit(x % 16)])
            by {
            assert forall|k: int| 0 <= k < hex_encode(next).len() implies #[trigger] hex_encode(
                next,
            )[k] == (hex_encode(prev) + seq![hex_digit(x / 16), hex_digit(x % 16)])[k] by {
                if k < 2 * prev.len() {
                    assert(k / 2 < prev.len());
                    assert(next[k / 2] == prev[k / 2]);
                } else {
                    assert(k / 2 == prev.len());
                }
            }
        }
    }
    assert(value@.take(value.len() as int) =~= value@);
}

/// The lowercase hexadecimal of the UTF-8 bytes of `value`.
pub fn hex_text(value: &str) -> (r: String)
    ensures
        r@ == ascii_chars(hex_of_text(value@)),
        utf8(r@) == hex_of_text(value@),
{
    let mut out: Vec<u8> = Vec::new();
    push_hex(&mut out, value.as_bytes());
    proof {
        lemma_hex_encode_ascii(utf8(value@));
        assert(out@ =~= hex_of_text(value@));
    }
    ascii_string(out)
}

/// The lowercase hexadecimal of raw bytes, as text: the form of a fresh nonce.
pub fn hex_bytes_text(value: &[u8]) -> (r: String)
    ensures
        r@ == ascii_chars(hex_encode(value@)),
        r@.len() == 2 * value@.len(),
{
    let mut out: Vec<u8> = Vec::new();
    push_hex(&mut out, value);
    proof {
        lemma_hex_encode_ascii(value@);
        assert(out@ =~= hex_encode(value@));
    }
    ascii_string(out)
}

/// Decodes one lowercase hexadecimal digit.
pub fn nibble(value: u8) -> (r: Option<u8>)
    ensures
        r == nibble_value(value),
{
    if 48 <= value && value <= 57 {
        Some(value - 48)
    } else if 97 <= value && value <= 102 {
        Some(value - 87)
    } else {
        None
    }
}

fn digit(value: u8, upper_ok: bool) -> (r: Option<u8>)
    ensures
        r == digit_value(value, upper_ok),
{
    if upper_ok && 65 <= value && value <= 70 {
        Some(value - 55)
    } else {
        nibble(value)
    }
}

/// Bytes spelled by pairs of hexadecimal digits (`upper_ok` also admits `A`-`F`).
pub fn decode_hex_bytes(value: &[u8], upper_ok: bool) -> (r: Option<Vec<u8>>)
    ensures
        r matches Some(b) ==> hex_decode_with(value@, upper_ok) == Some(b@),
        r is None ==> hex_decode_with(value@, upper_ok) is None,
{
    if value.len() % 2 != 0 {
        return None;
    }
    let mut bytes: Vec<u8> = Vec::new();
    let mut i: usize = 0;
    while i < value.len() / 2
        invariant
            value.len() % 2 == 0,
            i <= value.len() / 2,
            bytes@.len() == i,
            forall|k: int| 0 <= k < 2 * i ==> (#[trigger] digit_value(value@[k], upper_ok)) is Some,
            forall|j: int|
                0 <= j < i ==> #[trigger] bytes@[j] == (digit_value(value@[2 * j], upper_ok)->0
                    * 16 + digit_value(value@[2 * j + 1], upper_ok)->0) as u8,
        decreases value.len() / 2 - i,
    {
        let high = match digit(value[2 * i], upper_ok) {
            Some(v) => v,
            None => {
                assert(!(digit_value(value@[2 * i as int], upper_ok) is Some));
                return None;
            },
        };
        let low = match digit(value[2 * i + 1], upper_ok) {
            Some(v) => v,
            None => {
                assert(!(digit_value(value@[2 * i + 1], upper_ok) is Some));
                return None;
            },
        };
        bytes.push(high * 16 + low);
        i = i + 1;
        assert forall|k: int| 0 <= k < 2 * i implies (#[trigger] digit_value(
            value@[k],
            upper_ok,
        )) is Some by {
            if k >= 2 * i - 2 {
                assert(k == 2 * (i - 1) || k == 2 * (i - 1) + 1);
            }
        }
    }
    assert(bytes@ =~= hex_decode_with(value@, upper_ok)->0);
    Some(bytes)
}

/// Text whose UTF-8 bytes are given in lowercase hexadecimal.
pub fn decode_hex(value: &[u8]) -> (r: Option<String>)
    ensures
        r matches Some(s) ==> text_of_hex(value@) == Some(s@),
        r is None ==> text_of_hex(value@) is None,
{
    decode_hex_with(value, false)
}

/// Text whose UTF-8 bytes are given in hexadecimal (`upper_ok` admits `A`-`F`).
pub fn decode_hex_with(value: &[u8], upper_ok: bool) -> (r: Option<String>)
    ensures
        r matches Some(s) ==> text_of_hex_with(value@, upper_ok) == Some(s@),
        r is None ==> text_of_hex_with(value@, upper_ok) is None,
{
    match decode_hex_bytes(value, upper_ok) {
        Some(bytes) => text_from_utf8(bytes),
        None => None,
    }
}

// ---------------------------------------------------------------------------
// Decimal numbers
// ---------------------------------------------------------------------------

/// Decimal digits of `n` without leading zeros (`u64::to_string`).
pub open spec fn decimal(n: nat) -> Seq<u8>
    decreases n,
{
    if n < 10 {
        seq![(48 + n) as u8]
    } else {
        decimal(n / 10).push((48 + n % 10) as u8)
    }
}

pub open spec fn is_digit(b: u8) -> bool {
    48 <= b <= 57
}

pub open spec fn all_digits(d: Seq<u8>) -> bool {
    forall|i: int| 0 <= i < d.len() ==> is_digit(#[trigger] d[i])
}

/// The value of a string of decimal digits.
pub open spec fn digits_value(d: Seq<u8>) -> nat
    decreases d.len(),
{
    if d.len() == 0 {
        0
    } else {
        digits_value(d.drop_last()) * 10 + (d.last() - 48) as nat
    }
}

/// What `str::parse` accepts for an unsigned integer: an optional `+`, then one or
/// more decimal digits. The bound on the value is the caller's.
pub open spec fn unsigned_value(b: Seq<u8>) -> Option<nat> {
    let d = if b.len() > 0 && b[0] == 43 {
        b.drop_first()
    } else {
        b
    };
    if d.len() > 0 && all_digits(d) {
        Some(digits_value(d))
    } else {
        None
    }
}

/// `str::parse::<u64>`.
pub open spec fn parse_u64_spec(b: Seq<u8>) -> Option<u64> {
    match unsigned_value(b) {
        Some(v) => if v <= u64::MAX {
            Some(v as u64)
        } else {
            None
        },
        None => None,
    }
}

/// `str::parse::<u32>`.
pub open spec fn parse_u32_spec(b: Seq<u8>) -> Option<u32> {
    match unsigned_value(b) {
        Some(v) => if v <= u32::MAX {
            Some(v as u32)
        } else {
            None
        },
        None => None,
    }
}

pub proof fn lemma_decimal_digits(n: nat)
    ensures
        decimal(n).len() > 0,
        all_digits(decimal(n)),
        decimal(n)[0] != 43,
        digits_value(decimal(n)) == n,
    decreases n,
{
    if n >= 10 {
        lemma_decimal_digits(n / 10);
        let d = decimal(n);
        assert(d.drop_last() =~= decimal(n / 10));
        assert(d.last() == (48 + n % 10) as u8);
        assert((n / 10) * 10 + n % 10 == n);
        assert(digits_value(d) == digits_value(decimal(n / 10)) * 10 + (n % 10));
    } else {
        let d = decimal(n);
        assert(d.drop_last() =~= Seq::<u8>::empty());
        assert(digits_value(Seq::<u8>::empty()) == 0);
        assert(d.last() == (48 + n) as u8);
        assert(digits_value(d) == digits_value(d.drop_last()) * 10 + (d.last() - 48) as nat);
    }
}

pub proof fn lemma_decimal_ascii(n: nat)
    ensures
        is_ascii_bytes(decimal(n)),
        forall|i: int| 0 <= i < decimal(n).len() ==> #[trigger] decimal(n)[i] != 10,
        forall|i: int| 0 <= i < decimal(n).len() ==> #[trigger] decimal(n)[i] != 61,
{
    lemma_decimal_digits(n);
}

/// Decimal rendering reads back as the same number.
pub proof fn lemma_decimal_round_trip(n: nat)
    ensures
        unsigned_value(decimal(n)) == Some(n),
{
    lemma_decimal_digits(n);
}

pub proof fn lemma_digits_prefix_le(d: Seq<u8>, k: int)
    requires
        0 <= k <= d.len(),
    ensures
        digits_value(d.take(k)) <= digits_value(d),
    decreases d.len(),
{
    if k < d.len() {
        lemma_digits_prefix_le(d.drop_last(), k);
        assert(d.drop_last().take(k) =~= d.take(k));
    } else {
        assert(d.take(k) =~= d);
    }
}

/// Appends the decimal digits of `n`.
pub fn push_decimal(out: &mut Vec<u8>, n: u64)
    ensures
        final(out)@ == old(out)@ + decimal(n as nat),
    decreases n,
{
    if n >= 10 {
        push_decimal(out, n / 10);
    }
    out.push(48 + (n % 10) as u8);
    proof {
        if n >= 10 {
            assert(decimal(n as nat) == decimal((n / 10) as nat).push((48 + n % 10) as u8));
        }
    }
    assert(out@ =~= old(out)@ + decimal(n as nat));
}

/// Accumulates the value of all-digit text, failing above `limit`.
fn digits_up_to(d: &[u8], start: usize, limit: u64) -> (r: Option<u64>)
    requires
        start <= d.len(),
        d@.skip(start as int).len() > 0,
        all_digits(d@.skip(start as int)),
    ensures
        r matches Some(v) ==> v == digits_value(d@.skip(start as int)),
        r is Some <==> digits_value(d@.skip(start as int)) <= limit,
{
    let ghost ds = d@.skip(start as int);
    let mut acc: u64 = 0;
    let mut i: usize = start;
    while i < d.len()
        invariant
            start <= i <= d.len(),
            ds == d@.skip(start as int),
            all_digits(ds),
            acc == digits_value(ds.take(i - start)),
            acc <= limit,
        decreases d.len() - i,
    {
        let c = d[i];
        assert(ds[i - start] == c);
        let ghost prefix = ds.take(i - start + 1);
        assert(prefix.drop_last() =~= ds.take(i - start));
        assert(digits_value(prefix) == acc * 10 + (c - 48));
        let dv = (c - 48) as u64;
        if acc > limit / 10 {
            proof {
                lemma_digits_prefix_le(ds, i - start + 1);
                assert(acc * 10 > limit) by (nonlinear_arith)
                    requires
                        acc > limit / 10,
                ;
            }
            return None;
        }
        assert(acc * 10 <= limit) by (nonlinear_arith)
            requires
                acc <= limit / 10,
        ;
        if dv > limit - acc * 10 {
            proof {
                lemma_digits_prefix_le(ds, i - start + 1);
            }
            return None;
        }
        acc = acc * 10 + dv;
        i = i + 1;
    }
    assert(ds.take(i - start) =~= ds);
    Some(acc)
}

/// `str::parse` for an unsigned integer no larger than `limit`.
pub fn parse_unsigned(b: &[u8], limit: u64) -> (r: Option<u64>)
    ensures
        r matches Some(v) ==> unsigned_value(b@) == Some(v as nat),
        r is Some <==> (unsigned_value(b@) is Some && unsigned_value(b@)->0 <= limit),
{
    let start: usize = if b.len() > 0 && b[0] == 43 {
        1
    } else {
        0
    };
    assert(b@.skip(start as int) =~= (if b@.len() > 0 && b@[0] == 43 {
        b@.drop_first()
    } else {
        b@
    }));
    if start >= b.len() {
        assert(b@.skip(start as int).len() == 0);
        return None;
    }
    let mut i: usize = start;
    while i < b.len()
        invariant
            start <= i <= b.len(),
            forall|k: int| start <= k < i ==> is_digit(#[trigger] b@[k]),
            b@.skip(start as int) == (if b@.len() > 0 && b@[0] == 43 {
                b@.drop_first()
            } else {
                b@
            }),
        decreases b.len() - i,
    {
        if !(48 <= b[i] && b[i] <= 57) {
            assert(!is_digit(b@.skip(start as int)[i - start]));
            return None;
        }
        i = i + 1;
    }
    assert(all_digits(b@.skip(start as int)));
    digits_up_to(b, start, limit)
}

/// `str::parse::<u64>`.
pub fn parse_u64(b: &[u8]) -> (r: Option<u64>)
    ensures
        r == parse_u64_spec(b@),
{
    parse_unsigned(b, u64::MAX)
}

/// `str::parse::<u32>`.
pub fn parse_u32(b: &[u8]) -> (r: Option<u32>)
    ensures
        r == parse_u32_spec(b@),
{
    match parse_unsigned(b, 0xffff_ffff) {
        Some(v) => Some(v as u32),
        None => None,
    }
}


// ---------------------------------------------------------------------------
// White space, trimming and lines of characters
// ---------------------------------------------------------------------------

/// The characters with the Unicode `White_Space` property (`char::is_whitespace`).
pub open spec fn is_space(c: char) -> bool {
    ||| c == '\t' || c == '\n' || c == '\u{b}' || c == '\u{c}' || c == '\r' || c == ' '
    ||| c == '\u{85}' || c == '\u{a0}' || c == '\u{1680}'
    ||| ('\u{2000}' <= c && c <= '\u{200a}')
    ||| c == '\u{2028}' || c == '\u{2029}' || c == '\u{202f}' || c == '\u{205f}' || c == '\u{3000}'
}

pub fn char_is_space(c: char) -> (r: bool)
    ensures
        r == is_space(c),
{
    c == '\t' || c == '\n' || c == '\u{b}' || c == '\u{c}' || c == '\r' || c == ' ' || c
        == '\u{85}' || c == '\u{a0}' || c == '\u{1680}' || ('\u{2000}' <= c && c <= '\u{200a}')
        || c == '\u{2028}' || c == '\u{2029}' || c == '\u{202f}' || c == '\u{205f}' || c
        == '\u{3000}'
}

/// A text without its leading and trailing white space (`str::trim`).
pub open spec fn trimmed(s: Seq<char>) -> Seq<char>
    decreases s.len(),
{
    if s.len() > 0 && is_space(s[0]) {
        trimmed(s.drop_first())
    } else if s.len() > 0 && is_space(s.last()) {
        trimmed(s.drop_last())
    } else {
        s
    }
}

proof fn lemma_trim_back(s: Seq<char>, j: int)
    requires
        0 < j <= s.len(),
        !is_space(s[0]),
        !is_space(s[j - 1]),
        forall|k: int| j <= k < s.len() ==> is_space(#[trigger] s[k]),
    ensures
        trimmed(s) == s.take(j),
    decreases s.len() - j,
{
    if j < s.len() {
        assert(s.drop_last().take(j) =~= s.take(j));
        assert(s.drop_last()[0] == s[0]);
        lemma_trim_back(s.drop_last(), j);
    } else {
        assert(s.take(j) =~= s);
    }
}

proof fn lemma_trim_front(s: Seq<char>, i: int)
    requires
        0 <= i <= s.len(),
        forall|k: int| 0 <= k < i ==> is_space(#[trigger] s[k]),
    ensures
        trimmed(s) == trimmed(s.skip(i)),
    decreases i,
{
    if i > 0 {
        assert(s.drop_first().skip(i - 1) =~= s.skip(i));
        lemma_trim_front(s.drop_first(), i - 1);
    } else {
        assert(s.skip(0) =~= s);
    }
}

proof fn lemma_trim_all_space(s: Seq<char>)
    requires
        forall|k: int| 0 <= k < s.len() ==> is_space(#[trigger] s[k]),
    ensures
        trimmed(s) == Seq::<char>::empty(),
    decreases s.len(),
{
    if s.len() > 0 {
        lemma_trim_all_space(s.drop_first());
    } else {
        assert(s =~= Seq::<char>::empty());
    }
}

/// Removes leading and trailing white space.
pub fn trim_text(value: &str) -> (r: String)
    ensures
        r@ == trimmed(value@),
{
    let n = value.unicode_len();
    let mut i: usize = 0;
    while i < n && char_is_space(value.get_char(i))
        invariant
            n == value@.len(),
            i <= n,
            forall|k: int| 0 <= k < i ==> is_space(#[trigger] value@[k]),
        decreases n - i,
    {
        i = i + 1;
    }
    let mut j: usize = n;
    while j > i && char_is_space(value.get_char(j - 1))
        invariant
            n == value@.len(),
            i <= j <= n,
            forall|k: int| j <= k < n ==> is_space(#[trigger] value@[k]),
        decreases j,
    {
        j = j - 1;
    }
    let piece = value.substring_char(i, j);
    proof {
        lemma_trim_front(value@, i as int);
        let rest = value@.skip(i as int);
        if i == j {
            assert forall|k: int| 0 <= k < rest.len() implies is_space(#[trigger] rest[k]) by {
                assert(rest[k] == value@[i + k]);
            }
            lemma_trim_all_space(rest);
            assert(piece@ =~= Seq::<char>::empty());
        } else {
            assert(rest[0] == value@[i as int]);
            assert(rest[j - i - 1] == value@[j - 1]);
            assert forall|k: int| j - i <= k < rest.len() implies is_space(#[trigger] rest[k]) by {
                assert(rest[k] == value@[i + k]);
            }
            lemma_trim_back(rest, j - i);
            assert(rest.take(j - i) =~= value@.subrange(i as int, j as int));
        }
    }
    piece.to_owned()
}

/// `text.split('\n')` on characters: always at least one piece.
pub open spec fn char_lines(s: Seq<char>) -> Seq<Seq<char>>
    decreases s.len(),
{
    if s.len() == 0 {
        seq![Seq::<char>::empty()]
    } else {
        let rest = char_lines(s.drop_last());
        if s.last() == '\n' {
            rest.push(Seq::<char>::empty())
        } else {
            rest.update(rest.len() - 1, rest.last().push(s.last()))
        }
    }
}

/// The pieces that are not blank, each trimmed.
pub open spec fn nonblank(pieces: Seq<Seq<char>>) -> Seq<Seq<char>>
    decreases pieces.len(),
{
    if pieces.len() == 0 {
        Seq::<Seq<char>>::empty()
    } else {
        let rest = nonblank(pieces.drop_last());
        if trimmed(pieces.last()).len() == 0 {
            rest
        } else {
            rest.push(trimmed(pieces.last()))
        }
    }
}

/// The non-blank lines of a text, trimmed (`lines().map(str::trim).filter(non-empty)`).
pub open spec fn nonblank_lines(s: Seq<char>) -> Seq<Seq<char>> {
    nonblank(char_lines(s))
}

proof fn lemma_char_lines_nonempty(s: Seq<char>)
    ensures
        char_lines(s).len() >= 1,
    decreases s.len(),
{
    if s.len() > 0 {
        lemma_char_lines_nonempty(s.drop_last());
    }
}

/// The non-blank lines of a text, trimmed.
pub fn nonblank_text_lines(text: &str) -> (r: Vec<String>)
    ensures
        texts_view(r@) == nonblank_lines(text@),
{
    let n = text.unicode_len();
    let mut out: Vec<String> = Vec::new();
    let mut start: usize = 0;
    let mut i: usize = 0;
    assert(text@.take(0) =~= Seq::<char>::empty());
    while i < n
        invariant
            n == text@.len(),
            start <= i <= n,
            char_lines(text@.take(i as int)).len() >= 1,
            char_lines(text@.take(i as int)).last() == text@.subrange(start as int, i as int),
            texts_view(out@) == nonblank(char_lines(text@.take(i as int)).drop_last()),
        decreases n - i,
    {
        let c = text.get_char(i);
        let ghost before = text@.take(i as int);
        let ghost ls = char_lines(before);
        proof {
            assert(text@.take(i + 1).drop_last() =~= before);
            assert(text@.take(i + 1).last() == c);
        }
        if c == '\n' {
            let piece = text.substring_char(start, i);
            let t = trim_text(piece);
            let ghost prev = out@;
            if t.unicode_len() > 0 {
                out.push(t);
                assert(texts_view(out@) =~= texts_view(prev).push(t@));
            }
            start = i + 1;
            proof {
                let nl = char_lines(text@.take(i + 1));
                assert(nl == ls.push(Seq::<char>::empty()));
                assert(nl.drop_last() =~= ls);
                assert(ls.drop_last().push(ls.last()) =~= ls);
                assert(nonblank(ls) == if trimmed(ls.last()).len() == 0 {
                    nonblank(ls.drop_last())
                } else {
                    nonblank(ls.drop_last()).push(trimmed(ls.last()))
                });
                assert(text@.subrange(start as int, i + 1) =~= Seq::<char>::empty());
            }
        } else {
            proof {
                let nl = char_lines(text@.take(i + 1));
                assert(nl == ls.update(ls.len() - 1, ls.last().push(c)));
                assert(nl.drop_last() =~= ls.drop_last());
                assert(text@.subrange(start as int, i + 1) =~= text@.subrange(start as int, i as int).push(c));
            }
        }
        i = i + 1;
    }
    let piece = text.substring_char(start, n);
    let t = trim_text(piece);
    let ghost prev = out@;
    let ghost ls = char_lines(text@);
    proof {
        assert(text@.take(n as int) =~= text@);
        assert(ls.drop_last().push(ls.last()) =~= ls);
    }
    if t.unicode_len() > 0 {
        out.push(t);
        assert(texts_view(out@) =~= texts_view(prev).push(t@));
    }
    out
}

} // verus!
