//! The legacy wire encodings: base-64 lengths (B64), variable-length
//! integers (VL64), and the framing of client packets.
use vstd::prelude::*;
use vstd::utf8::*;
use vstd::string::StringSliceAdditionalSpecFns;
use crate::text::{push_char, utf8_lossy, spec_utf8_lossy};


verus! {

/// Errors of the wire decoders.
#[derive(Debug, Clone, Copy, PartialEq, Eq)]
pub enum CodecError {
    /// A B64 digit below `@` (64).
    InvalidB64Byte(u8),
    /// A VL64 number was read from no input.
    EmptyVl64,
    /// The byte count in a VL64 header is zero or exceeds the input.
    InvalidVl64ByteCount,
}

// ---------------------------------------------------------------- B64

/// 64 to the power `e`.
pub open spec fn pow64(e: nat) -> int
    decreases e,
{
    if e == 0 {
        1
    } else {
        64 * pow64((e - 1) as nat)
    }
}

/// True when every byte is a B64 digit (64 or above).
pub open spec fn b64_all_valid(bs: Seq<u8>) -> bool {
    forall|i: int| 0 <= i < bs.len() ==> #[trigger] bs[i] >= 64
}

/// The value of a B64 number: most significant digit first, digit = byte - 64.
pub open spec fn b64_value(bs: Seq<u8>) -> int
    decreases bs.len(),
{
    if bs.len() == 0 {
        0
    } else {
        b64_value(bs.drop_last()) * 64 + (bs.last() as int - 64)
    }
}

/// The right-most byte that is not a B64 digit, if any.
pub open spec fn b64_last_invalid(bs: Seq<u8>) -> Option<u8>
    decreases bs.len(),
{
    if bs.len() == 0 {
        None
    } else if bs.last() < 64 {
        Some(bs.last())
    } else {
        b64_last_invalid(bs.drop_last())
    }
}

/// What decoding a B64 number gives: the right-most invalid digit is reported.
pub open spec fn b64_decode_spec(bs: Seq<u8>) -> Result<int, CodecError> {
    match b64_last_invalid(bs) {
        Some(b) => Err(CodecError::InvalidB64Byte(b)),
        None => Ok(b64_value(bs)),
    }
}

/// The decoder reads digits from the right; for every valid suffix it computes
/// a power of 64 and a partial sum in a `usize`. This holds when none overflows.
pub open spec fn b64_fits(bs: Seq<u8>) -> bool {
    forall|i: int|
        0 <= i < bs.len() && #[trigger] b64_all_valid(bs.subrange(i, bs.len() as int)) ==> {
            &&& pow64((bs.len() - 1 - i) as nat) <= usize::MAX
            &&& b64_value(bs.subrange(i, bs.len() as int)) <= usize::MAX
        }
}

proof fn lemma_b64_prepend(d: u8, t: Seq<u8>)
    ensures
        b64_value(seq![d] + t) == (d as int - 64) * pow64(t.len()) + b64_value(t),
    decreases t.len(),
{
    if t.len() == 0 {
        let s = seq![d] + t;
        assert(s.drop_last() =~= Seq::<u8>::empty());
        assert(s.last() == d);
        assert(b64_value(s) == b64_value(s.drop_last()) * 64 + (d as int - 64));
        assert(pow64(0) == 1);
    } else {
        let t2 = t.drop_last();
        lemma_b64_prepend(d, t2);
        let s = seq![d] + t;
        assert(s.drop_last() =~= seq![d] + t2);
        assert(s.last() == t.last());
        assert(b64_value(t) == b64_value(t2) * 64 + (t.last() as int - 64));
        assert(b64_value(s) == b64_value(seq![d] + t2) * 64 + (t.last() as int - 64));
        assert(pow64(t.len()) == 64 * pow64(t2.len()));
        let a = d as int - 64;
        let p = pow64(t2.len());
        assert((a * p + b64_value(t2)) * 64 == a * (64 * p) + b64_value(t2) * 64)
            by (nonlinear_arith);
    }
}

proof fn lemma_b64_nonneg(bs: Seq<u8>)
    requires
        b64_all_valid(bs),
    ensures
        b64_value(bs) >= 0,
    decreases bs.len(),
{
    if bs.len() > 0 {
        lemma_b64_nonneg(bs.drop_last());
    }
}

/// Decodes a B64 number from raw bytes.
pub fn b64_decode_bytes(bs: &[u8]) -> (r: Result<usize, CodecError>)
    requires
        b64_fits(bs@),
    ensures
        r == (match b64_decode_spec(bs@) {
            Ok(v) => Ok(v as usize),
            Err(e) => Err::<usize, CodecError>(e),
        }),
{
    let len = bs.len();
    let mut total: usize = 0;
    let mut scale: usize = 1;
    let mut k: usize = 0;
    assert(bs@.subrange(0, len as int) =~= bs@);
    while k < len
        invariant
            len == bs@.len(),
            b64_fits(bs@),
            0 <= k <= len,
            b64_all_valid(bs@.subrange(len - k, len as int)),
            total == b64_value(bs@.subrange(len - k, len as int)),
            scale == pow64((if k == 0 { 0 } else { k - 1 }) as nat),
            b64_last_invalid(bs@) == b64_last_invalid(bs@.subrange(0, len - k)),
        decreases len - k,
    {
        let idx = len - 1 - k;
        let byte = bs[idx];
        let ghost pre = bs@.subrange(0, idx + 1);
        assert(pre.drop_last() =~= bs@.subrange(0, idx as int));
        if byte < 64 {
            assert(pre.last() == byte);
            return Err(CodecError::InvalidB64Byte(byte));
        }
        let ghost suf = bs@.subrange(idx + 1, len as int);
        let ghost suf2 = bs@.subrange(idx as int, len as int);
        assert(suf2 =~= seq![byte] + suf);
        assert(b64_all_valid(suf2)) by {
            assert forall|j: int| 0 <= j < suf2.len() implies #[trigger] suf2[j] >= 64 by {
                if j > 0 {
                    assert(suf2[j] == suf[j - 1]);
                }
            }
        }
        assert(pow64((len - 1 - idx) as nat) <= usize::MAX);
        assert(b64_value(suf2) <= usize::MAX);
        proof {
            lemma_b64_prepend(byte, suf);
            lemma_b64_nonneg(suf);
        }
        if k > 0 {
            assert(pow64(k as nat) == 64 * pow64((k - 1) as nat));
            scale = scale * 64;
        } else {
            assert(pow64(0) == 1);
        }
        assert(scale == pow64(k as nat));
        assert(suf.len() == k);
        let digit = (byte - 64) as usize;
        assert(digit * scale <= b64_value(suf2));
        let term = digit * scale;
        total = total + term;
        k = k + 1;
    }
    assert(bs@.subrange(0, 0) =~= Seq::<u8>::empty());
    assert(bs@.subrange(0, len as int) =~= bs@);
    Ok(total)
}

/// Decodes a B64 number from the bytes of a string.
pub fn decode_b64(value: &str) -> (r: Result<usize, CodecError>)
    requires
        b64_fits(value.spec_bytes()),
    ensures
        r == (match b64_decode_spec(value.spec_bytes()) {
            Ok(v) => Ok(v as usize),
            Err(e) => Err::<usize, CodecError>(e),
        }),
{
    b64_decode_bytes(value.as_bytes())
}


// ---------------------------------------------------------------- VL64

/// The continuation digits of a VL64 number: least significant first, each
/// byte is 64 plus six bits of the value.
pub open spec fn vl64_tail(q: nat) -> Seq<u8>
    decreases q,
{
    if q == 0 {
        Seq::<u8>::empty()
    } else {
        seq![(64 + q % 64) as u8] + vl64_tail(q / 64)
    }
}

/// The absolute value of an integer.
pub open spec fn abs_int(v: int) -> nat {
    if v < 0 {
        (-v) as nat
    } else {
        v as nat
    }
}

/// The VL64 encoding of `v`: a head byte holding the two low bits, the sign
/// bit (4) and the byte count (times 8) above 64, then the tail digits.
pub open spec fn vl64_encoding(v: int) -> Seq<u8> {
    let m = abs_int(v);
    let t = vl64_tail(m / 4);
    seq![(64 + m % 4 + 8 * (t.len() + 1) + (if v < 0 { 4int } else { 0int })) as u8] + t
}

/// Bytes read as characters one for one.
pub open spec fn bytes_text(b: Seq<u8>) -> Seq<char> {
    b.map_values(|x: u8| x as char)
}

proof fn lemma_vl64_tail_len(q: nat, k: nat)
    requires
        q < pow64(k),
    ensures
        vl64_tail(q).len() <= k,
        forall|i: int| 0 <= i < vl64_tail(q).len() ==> 64 <= #[trigger] vl64_tail(q)[i] < 128,
    decreases q,
{
    if q > 0 {
        assert(k > 0);
        assert(q / 64 < pow64((k - 1) as nat));
        lemma_vl64_tail_len(q / 64, (k - 1) as nat);
        let t = vl64_tail(q);
        let r = vl64_tail(q / 64);
        assert(t =~= seq![(64 + q % 64) as u8] + r);
        assert forall|i: int| 0 <= i < t.len() implies 64 <= #[trigger] t[i] < 128 by {
            if i > 0 {
                assert(t[i] == r[i - 1]);
            }
        }
    }
}

/// Encodes an integer as VL64.
pub fn encode_vl64(value: i32) -> (r: String)
    requires
        value != i32::MIN,
    ensures
        r@ == bytes_text(vl64_encoding(value as int)),
        vl64_encoding(value as int).len() <= 6,
{
    let m: i32 = if value < 0 { -value } else { value };
    let ghost q0 = (m / 4) as nat;
    let mut q: i32 = m / 4;
    let mut tail: Vec<u8> = Vec::new();
    proof {
        lemma_pow64_small();
        lemma_vl64_tail_len(q0, 5);
    }
    while q != 0
        invariant
            0 <= q,
            tail@ + vl64_tail(q as nat) =~= vl64_tail(q0),
            vl64_tail(q0).len() <= 5,
        decreases q,
    {
        let ghost old_tail = tail@;
        assert(vl64_tail(q as nat) =~= seq![(64 + q % 64) as u8] + vl64_tail((q / 64) as nat));
        tail.push((64 + q % 64) as u8);
        assert(tail@ + vl64_tail((q / 64) as nat) =~= old_tail + vl64_tail(q as nat));
        q = q / 64;
    }
    assert(tail@ =~= vl64_tail(q0));
    let count = tail.len() + 1;
    let neg: u8 = if value < 0 { 4 } else { 0 };
    let head: u8 = 64 + (m % 4) as u8 + 8 * (count as u8) + neg;
    let mut out = String::new();
    push_char(&mut out, head as char);
    let n = tail.len();
    let mut i: usize = 0;
    proof {
        lemma_vl64_tail_len(q0, 5);
    }
    while i < n
        invariant
            n == tail@.len(),
            tail@ == vl64_tail(q0),
            0 <= i <= n,
            out@ =~= bytes_text(seq![head] + tail@.take(i as int)),
        decreases n - i,
    {
        push_char(&mut out, tail[i] as char);
        assert(tail@.take(i + 1) =~= tail@.take(i as int).push(tail@[i as int]));
        assert(seq![head] + tail@.take(i + 1) =~= (seq![head] + tail@.take(i as int)).push(tail@[i as int]));
        i += 1;
    }
    assert(tail@.take(n as int) =~= tail@);
    assert(vl64_encoding(value as int) =~= seq![head] + tail@);
    out
}

/// The continuation digits of a VL64 number read back: six bits each,
/// least significant first.
pub open spec fn vl64_digits(d: Seq<u8>) -> int
    decreases d.len(),
{
    if d.len() == 0 {
        0
    } else {
        vl64_digits(d.drop_last()) + (d.last() % 64) as int * pow64((d.len() - 1) as nat)
    }
}

/// A 32-bit pattern read as a signed `i32`.
pub open spec fn wrap_i32(m: int) -> int {
    if m < 0x8000_0000 {
        m
    } else {
        m - 0x1_0000_0000
    }
}

/// The byte count in a VL64 head byte.
pub open spec fn vl64_count(first: u8) -> int {
    (first / 8) as int % 8
}

/// The sign flag in a VL64 head byte.
pub open spec fn vl64_negative(first: u8) -> bool {
    (first / 4) % 2 == 1
}

/// The unsigned magnitude that the decoder assembles from `n` bytes.
pub open spec fn vl64_magnitude(raw: Seq<u8>, n: int) -> int {
    (raw[0] % 4) as int + 4 * vl64_digits(raw.subrange(1, n))
}

/// What decoding a VL64 number gives: the value and the bytes it took.
pub open spec fn vl64_decode_spec(raw: Seq<u8>) -> Result<(int, int), CodecError> {
    if raw.len() == 0 {
        Err(CodecError::EmptyVl64)
    } else {
        let n = vl64_count(raw[0]);
        if n == 0 || raw.len() < n {
            Err(CodecError::InvalidVl64ByteCount)
        } else {
            let w = wrap_i32(vl64_magnitude(raw, n));
            Ok((if vl64_negative(raw[0]) { -w } else { w }, n))
        }
    }
}

/// The decoder shifts by 32 bits (and panics) when a head byte announces
/// seven bytes that are present, and overflows when it negates `i32::MIN`.
pub open spec fn vl64_decodable(raw: Seq<u8>) -> bool {
    raw.len() == 0 || {
        let n = vl64_count(raw[0]);
        n == 0 || raw.len() < n || (n != 7 && !(vl64_negative(raw[0]) && vl64_magnitude(raw, n)
            == 0x8000_0000))
    }
}

proof fn lemma_vl64_digits_bound(d: Seq<u8>)
    ensures
        0 <= vl64_digits(d) < pow64(d.len()),
    decreases d.len(),
{
    if d.len() > 0 {
        lemma_vl64_digits_bound(d.drop_last());
        let p = pow64((d.len() - 1) as nat);
        let x = (d.last() % 64) as int;
        assert(pow64(d.len()) == 64 * p);
        assert(0 <= x * p <= 63 * p) by (nonlinear_arith)
            requires 0 <= x <= 63, p >= 0;
    }
}

proof fn lemma_pow64_small()
    ensures
        pow64(0) == 1,
        pow64(1) == 64,
        pow64(2) == 4096,
        pow64(3) == 262144,
        pow64(4) == 16777216,
        pow64(5) == 1073741824,
{
    assert(pow64(0) == 1);
    assert(pow64(1) == 64);
    assert(pow64(2) == 4096);
    assert(pow64(3) == 262144);
    assert(pow64(4) == 16777216);
    assert(pow64(5) == 1073741824);
}

proof fn lemma_pow64_pos(e: nat)
    ensures
        pow64(e) >= 1,
    decreases e,
{
    if e > 0 {
        lemma_pow64_pos((e - 1) as nat);
    }
}

/// A VL64 number that decodes is an `i32` and takes at least one of the
/// bytes it was read from.
pub proof fn lemma_vl64_decoded_range(raw: Seq<u8>)
    requires
        vl64_decodable(raw),
        vl64_decode_spec(raw) is Ok,
    ensures
        match vl64_decode_spec(raw) {
            Ok((v, n)) => i32::MIN <= v <= i32::MAX && 1 <= n <= raw.len() && n <= 6,
            Err(_) => true,
        },
{
    let n = vl64_count(raw[0]);
    lemma_pow64_small();
    lemma_vl64_digits_bound(raw.subrange(1, n));
    lemma_pow64_mono((n - 1) as nat, 5);
}

/// The unsigned magnitude of a VL64 number of `total` bytes.
fn vl64_magnitude_exec(raw: &[u8], total: usize) -> (m: u64)
    requires
        1 <= total <= 6,
        total <= raw@.len(),
    ensures
        m == vl64_magnitude(raw@, total as int),
{
    let mut acc: u64 = (raw[0] % 4) as u64;
    let mut factor: u64 = 4;
    let mut i: usize = 1;
    proof {
        lemma_pow64_small();
    }
    while i < total
        invariant
            1 <= total <= 6,
            total <= raw@.len(),
            1 <= i <= total,
            pow64(5) == 1073741824,
            factor == 4 * pow64((i - 1) as nat),
            acc == (raw@[0] % 4) as int + 4 * vl64_digits(raw@.subrange(1, i as int)),
        decreases total - i,
    {
        let ghost d = raw@.subrange(1, i as int);
        let ghost d2 = raw@.subrange(1, i + 1);
        assert(d2.drop_last() =~= d);
        assert(d2.last() == raw@[i as int]);
        proof {
            lemma_vl64_digits_bound(d);
            assert(pow64(((i - 1) + 1) as nat) == 64 * pow64((i - 1) as nat));
            assert(pow64((i - 1) as nat) <= pow64(4)) by {
                lemma_pow64_mono((i - 1) as nat, 4);
            }
            lemma_pow64_small();
        }
        let digit = (raw[i] % 64) as u64;
        assert(digit * factor <= 63 * factor) by (nonlinear_arith)
            requires digit <= 63;
        acc = acc + digit * factor;
        assert(4 * vl64_digits(d2) == 4 * vl64_digits(d) + digit * factor) by (nonlinear_arith)
            requires vl64_digits(d2) == vl64_digits(d) + digit * pow64((i - 1) as nat),
                factor == 4 * pow64((i - 1) as nat);
        factor = factor * 64;
        i = i + 1;
    }
    acc
}

/// Whether a VL64 number can be decoded from the bytes (see
/// `vl64_decodable`).
pub fn vl64_can_decode(raw: &[u8]) -> (r: bool)
    ensures
        r == vl64_decodable(raw@),
{
    if raw.len() == 0 {
        return true;
    }
    let first = raw[0];
    let total = ((first / 8) % 8) as usize;
    if total == 0 || raw.len() < total {
        return true;
    }
    if total == 7 {
        return false;
    }
    let negative = (first / 4) % 2 == 1;
    !(negative && vl64_magnitude_exec(raw, total) == 0x8000_0000)
}

/// Decodes a VL64 number from raw bytes, returning it with the bytes it took.
pub fn vl64_decode_bytes(raw: &[u8]) -> (r: Result<(i32, usize), CodecError>)
    requires
        vl64_decodable(raw@),
    ensures
        r == (match vl64_decode_spec(raw@) {
            Ok((v, n)) => Ok((v as i32, n as usize)),
            Err(e) => Err::<(i32, usize), CodecError>(e),
        }),
{
    if raw.len() == 0 {
        return Err(CodecError::EmptyVl64);
    }
    let first = raw[0];
    let negative = (first / 4) % 2 == 1;
    let total = ((first / 8) % 8) as usize;
    if total == 0 || raw.len() < total {
        return Err(CodecError::InvalidVl64ByteCount);
    }
    let acc = vl64_magnitude_exec(raw, total);
    proof {
        lemma_vl64_digits_bound(raw@.subrange(1, total as int));
        lemma_pow64_mono((total - 1) as nat, 5);
        lemma_pow64_small();
    }
    let w: i64 = if acc < 0x8000_0000 { acc as i64 } else { acc as i64 - 0x1_0000_0000 };
    let v: i64 = if negative { -w } else { w };
    Ok((v as i32, total))
}

proof fn lemma_pow64_mono(a: nat, b: nat)
    requires
        a <= b,
    ensures
        pow64(a) <= pow64(b),
    decreases b,
{
    lemma_pow64_pos(a);
    if a < b {
        lemma_pow64_mono(a, (b - 1) as nat);
        lemma_pow64_pos((b - 1) as nat);
    }
}

/// Decodes a VL64 number from the bytes of a string.
pub fn decode_vl64(data: &str) -> (r: Result<(i32, usize), CodecError>)
    requires
        vl64_decodable(data.spec_bytes()),
    ensures
        r == (match vl64_decode_spec(data.spec_bytes()) {
            Ok((v, n)) => Ok((v as i32, n as usize)),
            Err(e) => Err::<(i32, usize), CodecError>(e),
        }),
{
    vl64_decode_bytes(data.as_bytes())
}


proof fn lemma_vl64_digits_prepend(x: u8, d: Seq<u8>)
    ensures
        vl64_digits(seq![x] + d) == (x % 64) as int + 64 * vl64_digits(d),
    decreases d.len(),
{
    let s = seq![x] + d;
    if d.len() == 0 {
        assert(s.drop_last() =~= Seq::<u8>::empty());
        assert(s.last() == x);
        assert(pow64(0) == 1);
        assert(vl64_digits(s) == vl64_digits(s.drop_last()) + (x % 64) as int * pow64(0));
        assert(vl64_digits(d) == 0);
    } else {
        let d2 = d.drop_last();
        lemma_vl64_digits_prepend(x, d2);
        assert(vl64_digits(s) == vl64_digits(s.drop_last()) + (s.last() % 64) as int * pow64(d.len()));
        assert(vl64_digits(d) == vl64_digits(d2) + (d.last() % 64) as int * pow64(d2.len()));
        assert(s.drop_last() =~= seq![x] + d2);
        assert(s.last() == d.last());
        assert(pow64(d.len()) == 64 * pow64(d2.len()));
        let l = (d.last() % 64) as int;
        assert(l * (64 * pow64(d2.len())) == 64 * (l * pow64(d2.len()))) by (nonlinear_arith);
    }
}

proof fn lemma_vl64_digits_of_tail(q: nat)
    ensures
        vl64_digits(vl64_tail(q)) == q,
    decreases q,
{
    if q > 0 {
        lemma_vl64_digits_of_tail(q / 64);
        lemma_vl64_digits_prepend((64 + q % 64) as u8, vl64_tail(q / 64));
    } else {
        assert(vl64_tail(0) =~= Seq::<u8>::empty());
    }
}

/// Encoding then decoding a VL64 number gives the number back, together with
/// the length of its encoding; the decoder never panics on an encoding.
pub proof fn law_vl64_roundtrip(v: int)
    requires
        i32::MIN < v <= i32::MAX,
    ensures
        vl64_decodable(vl64_encoding(v)),
        vl64_decode_spec(vl64_encoding(v)) == Ok::<(int, int), CodecError>((v, vl64_encoding(v).len() as int)),
{
    let m = abs_int(v);
    let q = m / 4;
    let t = vl64_tail(q);
    lemma_pow64_small();
    lemma_vl64_tail_len(q, 5);
    let raw = vl64_encoding(v);
    let neg: int = if v < 0 { 4 } else { 0 };
    let f = 64 + m % 4 + 8 * (t.len() + 1) + neg;
    assert(raw[0] == f as u8);
    assert(f == 8 * (9 + t.len()) + (m % 4 + neg));
    assert(vl64_count(raw[0]) == t.len() + 1);
    assert(f == 4 * (2 * (9 + t.len()) + neg / 4) + m % 4);
    assert(vl64_negative(raw[0]) == (v < 0));
    assert(raw.subrange(1, t.len() + 1int) =~= t);
    lemma_vl64_digits_of_tail(q);
    assert(vl64_magnitude(raw, t.len() + 1int) == m);
}

/// Decoding a VL64 number reads only its own bytes: whatever follows the
/// encoding, decoding gives the number and the length of its encoding.
pub proof fn law_vl64_roundtrip_with_suffix(v: int, suffix: Seq<u8>)
    requires
        i32::MIN < v <= i32::MAX,
    ensures
        vl64_decodable(vl64_encoding(v) + suffix),
        vl64_decode_spec(vl64_encoding(v) + suffix) == Ok::<(int, int), CodecError>((v, vl64_encoding(v).len() as int)),
{
    law_vl64_roundtrip(v);
    let e = vl64_encoding(v);
    let raw = e + suffix;
    let n = vl64_count(e[0]);
    assert(n == e.len());
    assert(raw[0] == e[0]);
    assert(raw.subrange(1, n) =~= e.subrange(1, n));
}

// ---------------------------------------------------------------- framing

/// A payload as it goes on the wire: its bytes followed by the byte 1.
pub fn legacy_frame(payload: &str) -> (r: Vec<u8>)
    ensures
        r@ == payload.spec_bytes().push(1u8),
{
    let bs = payload.as_bytes();
    let mut out: Vec<u8> = Vec::new();
    let n = bs.len();
    let mut i: usize = 0;
    while i < n
        invariant
            n == bs@.len(),
            0 <= i <= n,
            out@ =~= bs@.take(i as int),
        decreases n - i,
    {
        out.push(bs[i]);
        assert(bs@.take(i + 1) =~= bs@.take(i as int).push(bs@[i as int]));
        i += 1;
    }
    assert(bs@.take(n as int) =~= bs@);
    out.push(1u8);
    out
}

/// A position where a string of these bytes may be cut: its ends, or any byte
/// that does not continue a multi-byte character.
pub open spec fn cut_point(b: Seq<u8>, i: int) -> bool {
    i == 0 || i == b.len() || (0 < i < b.len() && !is_continuation_byte(b[i]))
}

proof fn lemma_cut_point(b: Seq<u8>, i: int)
    requires
        valid_utf8(b),
        0 <= i <= b.len(),
    ensures
        cut_point(b, i) <==> is_char_boundary(b, i),
{
    is_char_boundary_start_end_of_seq(b);
    if 0 < i < b.len() {
        is_char_boundary_iff_not_is_continuation_byte(b, i);
    }
}

proof fn lemma_valid_cut(b: Seq<u8>, i: int, j: int)
    requires
        valid_utf8(b),
        0 <= i <= j <= b.len(),
        cut_point(b, i),
        cut_point(b, j),
    ensures
        valid_utf8(b.subrange(i, j)),
{
    lemma_cut_point(b, j);
    valid_utf8_split(b, j);
    let p = b.subrange(0, j);
    assert(cut_point(p, i)) by {
        if 0 < i < j {
            assert(p[i] == b[i]);
        }
    }
    lemma_cut_point(p, i);
    valid_utf8_split(p, i);
    assert(p.subrange(i, p.len() as int) =~= b.subrange(i, j));
}

/// Splits pending bytes into frames: a byte of any value, a two-digit B64
/// payload length, then the payload. Gives the payloads, the bytes left over,
/// and the error that stopped the split, if one did.
pub open spec fn frame_split(b: Seq<u8>) -> (Seq<Seq<u8>>, Seq<u8>, Option<CodecError>)
    decreases b.len(),
{
    if b.len() < 3 {
        (Seq::empty(), b, None)
    } else {
        match b64_decode_spec(b.subrange(1, 3)) {
            Err(e) => (Seq::empty(), b, Some(e)),
            Ok(l) => {
                let fl = l + 3;
                if l < 0 || b.len() < fl {
                    (Seq::empty(), b, None)
                } else {
                    let r = frame_split(b.subrange(fl, b.len() as int));
                    (seq![b.subrange(3, fl)] + r.0, r.1, r.2)
                }
            },
        }
    }
}

/// The frames of the pending bytes can be cut out: the string slicing that
/// splitting does falls on character boundaries every time.
pub open spec fn frames_sliceable(b: Seq<u8>) -> bool
    decreases b.len(),
{
    b.len() < 3 || {
        &&& cut_point(b, 1)
        &&& cut_point(b, 3)
        &&& match b64_decode_spec(b.subrange(1, 3)) {
            Err(_) => true,
            Ok(l) => {
                let fl = l + 3;
                l < 0 || b.len() < fl || (cut_point(b, fl) && frames_sliceable(
                    b.subrange(fl, b.len() as int),
                ))
            },
        }
    }
}

pub proof fn lemma_b64_two_fits(h: Seq<u8>)
    requires
        h.len() == 2,
    ensures
        b64_fits(h),
        b64_all_valid(h) ==> 0 <= b64_value(h) <= 191 * 65,
{
    assert(h.subrange(1, 2).drop_last() =~= Seq::<u8>::empty());
    assert(h.subrange(0, 2) =~= h);
    assert(h.drop_last().drop_last() =~= Seq::<u8>::empty());
    let x = h.subrange(1, 2);
    assert(x.last() == h[1]);
    assert(b64_value(x.drop_last()) == 0);
    assert(b64_value(x) == h[1] as int - 64);
    assert(h.drop_last().last() == h[0]);
    assert(b64_value(h.drop_last().drop_last()) == 0);
    assert(b64_value(h.drop_last()) == h[0] as int - 64);
    assert(h.last() == h[1]);
    assert(b64_value(h) == (h[0] as int - 64) * 64 + (h[1] as int - 64));
    assert(pow64(0) == 1);
    assert(pow64(1) == 64);
    assert forall|i: int|
        0 <= i < h.len() && #[trigger] b64_all_valid(h.subrange(i, h.len() as int)) implies {
            &&& pow64((h.len() - 1 - i) as nat) <= usize::MAX
            &&& b64_value(h.subrange(i, h.len() as int)) <= usize::MAX
        } by {
        if i == 0 {
            assert(h.subrange(0, 2) =~= h);
            assert(h.subrange(i, h.len() as int)[0] == h[0]);
            assert(h.subrange(i, h.len() as int)[1] == h[1]);
        } else {
            assert(h.subrange(i, h.len() as int)[0] == h[1]);
        }
    }
    if b64_all_valid(h) {
        assert(h[0] >= 64 && h[1] >= 64);
    }
}

/// A client frame: a marker byte, the payload's length as two B64 digits,
/// then the payload.
pub open spec fn client_frame(marker: u8, payload: Seq<u8>) -> Seq<u8> {
    seq![marker, (64 + payload.len() / 64) as u8, (64 + payload.len() % 64) as u8] + payload
}

/// A two-digit B64 number made of valid digits decodes to its value.
proof fn lemma_two_digits(d1: u8, d2: u8)
    requires
        64 <= d1,
        64 <= d2,
    ensures
        b64_last_invalid(seq![d1, d2]) is None,
        b64_value(seq![d1, d2]) == (d1 - 64) * 64 + (d2 - 64),
{
    let h = seq![d1, d2];
    let one = seq![d1];
    assert(h.drop_last() =~= one);
    assert(one.drop_last() =~= Seq::<u8>::empty());
    assert(b64_last_invalid(one.drop_last()) is None);
    assert(b64_last_invalid(one) is None);
    assert(b64_value(one.drop_last()) == 0);
    assert(b64_value(one) == d1 - 64);
}

/// A frame is read back as its payload, whatever follows it: splitting a
/// frame and then more bytes gives the payload, then what the more bytes
/// give on their own.
pub proof fn law_frame_reads_back(marker: u8, payload: Seq<u8>, rest: Seq<u8>)
    requires
        payload.len() < 4096,
    ensures
        frame_split(client_frame(marker, payload) + rest) == (
            seq![payload] + frame_split(rest).0,
            frame_split(rest).1,
            frame_split(rest).2,
        ),
{
    let n = payload.len() as int;
    let f = client_frame(marker, payload);
    let b = f + rest;
    let h = b.subrange(1, 3);
    let d1 = (64 + n / 64) as u8;
    let d2 = (64 + n % 64) as u8;
    assert(0 <= n / 64 < 64);
    assert(0 <= n % 64 < 64);
    assert(d1 as int == 64 + n / 64);
    assert(d2 as int == 64 + n % 64);
    assert(h =~= seq![d1, d2]);
    lemma_two_digits(d1, d2);
    assert(b64_value(h) == n);
    assert(b.subrange(3, n + 3) =~= payload);
    assert(b.subrange(n + 3, b.len() as int) =~= rest);
}

/// Client frames of the payloads `ps`, one after another, all with the
/// same marker byte.
pub open spec fn frames_of(marker: u8, ps: Seq<Seq<u8>>) -> Seq<u8>
    decreases ps.len(),
{
    if ps.len() == 0 {
        Seq::empty()
    } else {
        client_frame(marker, ps[0]) + frames_of(marker, ps.subrange(1, ps.len() as int))
    }
}

/// The first `k` bytes of a frame that is not complete yet are left as
/// they are, and give no packet.
proof fn lemma_frame_prefix(marker: u8, payload: Seq<u8>, k: int)
    requires
        payload.len() < 4096,
        0 <= k < payload.len() + 3,
    ensures
        frame_split(client_frame(marker, payload).subrange(0, k)) == (
            Seq::<Seq<u8>>::empty(),
            client_frame(marker, payload).subrange(0, k),
            None::<CodecError>,
        ),
{
    let q = client_frame(marker, payload).subrange(0, k);
    if k >= 3 {
        let n = payload.len() as int;
        let d1 = (64 + n / 64) as u8;
        let d2 = (64 + n % 64) as u8;
        assert(d1 as int == 64 + n / 64);
        assert(d2 as int == 64 + n % 64);
        assert(q.subrange(1, 3) =~= seq![d1, d2]);
        lemma_two_digits(d1, d2);
        assert(b64_value(q.subrange(1, 3)) == n);
    }
}

proof fn lemma_frames_split(marker: u8, ps: Seq<Seq<u8>>, q: Seq<u8>)
    requires
        forall|i: int| 0 <= i < ps.len() ==> #[trigger] ps[i].len() < 4096,
        frame_split(q) == (Seq::<Seq<u8>>::empty(), q, None::<CodecError>),
    ensures
        frame_split(frames_of(marker, ps) + q) == (ps, q, None::<CodecError>),
    decreases ps.len(),
{
    if ps.len() == 0 {
        assert(frames_of(marker, ps) + q =~= q);
        assert(ps =~= Seq::<Seq<u8>>::empty());
    } else {
        let tail = ps.subrange(1, ps.len() as int);
        assert forall|i: int| 0 <= i < tail.len() implies #[trigger] tail[i].len() < 4096 by {
            assert(tail[i] == ps[i + 1]);
        }
        lemma_frames_split(marker, tail, q);
        let t = frames_of(marker, tail) + q;
        assert(ps[0].len() < 4096);
        law_frame_reads_back(marker, ps[0], t);
        assert(frames_of(marker, ps) + q =~= client_frame(marker, ps[0]) + t);
        assert(seq![ps[0]] + tail =~= ps);
    }
}

/// Frames pushed one after another read back in order, each payload once:
/// with the first `k` bytes of one more frame behind them, splitting gives
/// every complete payload in order and keeps those `k` bytes; splitting the
/// kept bytes again gives nothing; and once the rest of that frame
/// arrives, splitting gives its payload and leaves nothing.
pub proof fn law_frames_read_back_in_order(marker: u8, ps: Seq<Seq<u8>>, last: Seq<u8>, k: int)
    requires
        forall|i: int| 0 <= i < ps.len() ==> #[trigger] ps[i].len() < 4096,
        last.len() < 4096,
        0 <= k < last.len() + 3,
    ensures
        ({
            let f = client_frame(marker, last);
            let q = f.subrange(0, k);
            &&& frame_split(frames_of(marker, ps) + q) == (ps, q, None::<CodecError>)
            &&& frame_split(q) == (Seq::<Seq<u8>>::empty(), q, None::<CodecError>)
            &&& frame_split(q + f.subrange(k, f.len() as int)) == (seq![last], Seq::<u8>::empty(), None::<CodecError>)
        }),
{
    let f = client_frame(marker, last);
    let q = f.subrange(0, k);
    lemma_frame_prefix(marker, last, k);
    lemma_frames_split(marker, ps, q);
    assert(q + f.subrange(k, f.len() as int) =~= f + Seq::<u8>::empty());
    law_frame_reads_back(marker, last, Seq::<u8>::empty());
    assert(seq![last] + Seq::<Seq<u8>>::empty() =~= seq![last]);
}

/// Raw client bytes waiting to be split into packets.
pub struct PacketBuffer {
    inner: Vec<u8>,
}

impl View for PacketBuffer {
    type V = Seq<u8>;

    closed spec fn view(&self) -> Seq<u8> {
        self.inner@
    }
}

impl Default for PacketBuffer {
    /// An empty buffer.
    fn default() -> (r: Self)
        ensures
            r@ == Seq::<u8>::empty(),
    {
        PacketBuffer::new()
    }
}

impl PacketBuffer {
    #[verifier::type_invariant]
    closed spec fn inv(self) -> bool {
        valid_utf8(self.inner@)
    }

    /// An empty buffer.
    pub fn new() -> (r: Self)
        ensures
            r@ == Seq::<u8>::empty(),
    {
        PacketBuffer { inner: Vec::new() }
    }

    /// Appends received bytes, read as text the way `String::from_utf8_lossy`
    /// reads them.
    pub fn push(&mut self, bytes: &[u8])
        ensures
            final(self)@ == old(self)@ + encode_utf8(spec_utf8_lossy(bytes@)),
            valid_utf8(bytes@) ==> final(self)@ == old(self)@ + bytes@,
    {
        proof {
            use_type_invariant(&*self);
        }
        let text = utf8_lossy(bytes);
        let tb = text.as_str().as_bytes();
        let n = tb.len();
        let ghost start = self.inner@;
        let mut added: Vec<u8> = Vec::new();
        let mut i: usize = 0;
        while i < n
            invariant
                n == tb@.len(),
                0 <= i <= n,
                added@ =~= tb@.take(i as int),
            decreases n - i,
        {
            added.push(tb[i]);
            assert(tb@.take(i + 1) =~= tb@.take(i as int).push(tb@[i as int]));
            i += 1;
        }
        assert(tb@.take(n as int) =~= tb@);
        proof {
            encode_utf8_valid_utf8(text@);
            valid_utf8_concat(start, tb@);
            if valid_utf8(bytes@) {
                decode_utf8_encode_utf8(bytes@);
            }
        }
        let mut joined = Vec::new();
        std::mem::swap(&mut joined, &mut self.inner);
        joined.append(&mut added);
        self.inner = joined;
    }

    /// Whether `next_packets` can cut every frame out of the pending bytes.
    pub fn can_take_packets(&self) -> (r: bool)
        ensures
            r == frames_sliceable(self@),
    {
        proof {
            use_type_invariant(self);
        }
        let b = &self.inner;
        let len = b.len();
        let mut start: usize = 0;
        assert(b@.subrange(0, len as int) =~= b@);
        loop
            invariant
                len == b@.len(),
                self@ == b@,
                start <= len,
                frames_sliceable(b@) == frames_sliceable(b@.subrange(start as int, len as int)),
            decreases len - start,
        {
            let ghost cur = b@.subrange(start as int, len as int);
            if len - start < 3 {
                assert(cur.len() < 3);
                assert(frames_sliceable(cur));
                return true;
            }
            let c1 = b[start + 1];
            let c3_ok = len - start == 3 || !(128 <= b[start + 3] && b[start + 3] < 192);
            assert(cur[1] == c1);
            assert(len - start > 3 ==> cur[3] == b@[start + 3]);
            if 128 <= c1 && c1 < 192 || !c3_ok {
                return false;
            }
            let hdr = slice_range(b, start + 1, start + 3);
            assert(hdr@ =~= cur.subrange(1, 3));
            proof {
                lemma_b64_two_fits(hdr@);
            }
            match b64_decode_bytes(hdr.as_slice()) {
                Err(_) => {
                    return true;
                },
                Ok(l) => {
                    proof {
                        lemma_last_invalid_none(hdr@);
                    }
                    let fl = l + 3;
                    if len - start < fl {
                        return true;
                    }
                    let fl_ok = len - start == fl || !(128 <= b[start + fl] && b[start + fl] < 192);
                    assert(len - start > fl ==> cur[fl as int] == b@[start + fl]);
                    if !fl_ok {
                        return false;
                    }
                    assert(cur.subrange(fl as int, cur.len() as int) =~= b@.subrange(start + fl, len as int));
                    start = start + fl;
                },
            }
        }
    }

    /// Cuts every complete frame out of the pending bytes and returns the
    /// payloads as text. A length header that is not B64 stops the split with
    /// an error; the frames cut before it are dropped from the buffer all the same.
    pub fn next_packets(&mut self) -> (r: Result<Vec<String>, CodecError>)
        requires
            frames_sliceable(old(self)@),
        ensures
            final(self)@ == frame_split(old(self)@).1,
            match r {
                Ok(v) => frame_split(old(self)@).2 is None && v.len() == frame_split(old(self)@).0.len()
                    && forall|i: int| 0 <= i < v.len() ==> #[trigger] v[i]@ == decode_utf8(frame_split(old(self)@).0[i]),
                Err(e) => frame_split(old(self)@).2 == Some(e),
            },
    {
        proof {
            use_type_invariant(&*self);
        }
        let ghost b0 = self.inner@;
        let len = self.inner.len();
        let mut start: usize = 0;
        let mut packets: Vec<String> = Vec::new();
        let mut outcome: Option<CodecError> = None;
        let ghost mut done: Seq<Seq<u8>> = Seq::empty();
        assert(b0.subrange(0, len as int) =~= b0);
        loop
            invariant_except_break
                outcome is None,
            invariant
                self.inner@ == b0,
                valid_utf8(b0),
                len == b0.len(),
                start <= len,
                cut_point(b0, start as int),
                frames_sliceable(b0.subrange(start as int, len as int)),
                frame_split(b0).0 == done + frame_split(b0.subrange(start as int, len as int)).0,
                frame_split(b0).1 == frame_split(b0.subrange(start as int, len as int)).1,
                frame_split(b0).2 == frame_split(b0.subrange(start as int, len as int)).2,
                packets.len() == done.len(),
                forall|i: int| 0 <= i < packets.len() ==> #[trigger] packets[i]@ == decode_utf8(done[i]),
            ensures
                frame_split(b0.subrange(start as int, len as int)).0 =~= Seq::<Seq<u8>>::empty(),
                frame_split(b0.subrange(start as int, len as int)).1 == b0.subrange(start as int, len as int),
                frame_split(b0.subrange(start as int, len as int)).2 == outcome,
            decreases len - start,
        {
            let ghost cur = b0.subrange(start as int, len as int);
            proof {
                lemma_valid_cut(b0, start as int, len as int);
            }
            if len - start < 3 {
                break;
            }
            let hdr = slice_range(&self.inner, start + 1, start + 3);
            assert(hdr@ =~= cur.subrange(1, 3));
            proof {
                lemma_b64_two_fits(hdr@);
            }
            match b64_decode_bytes(hdr.as_slice()) {
                Err(e) => {
                    outcome = Some(e);
                    break;
                },
                Ok(l) => {
                    proof {
                        if b64_all_valid(hdr@) {
                        }
                        assert(b64_last_invalid(hdr@) is None);
                        lemma_last_invalid_none(hdr@);
                    }
                    let fl = l + 3;
                    if len - start < fl {
                        break;
                    }
                    let payload_bytes = slice_range(&self.inner, start + 3, start + fl);
                    assert(payload_bytes@ =~= cur.subrange(3, fl as int));
                    proof {
                        lemma_valid_cut(cur, 3, fl as int);
                    }
                    let payload = utf8_lossy(payload_bytes.as_slice());
                    packets.push(payload);
                    proof {
                        let ghost next = cur.subrange(fl as int, cur.len() as int);
                        assert(next =~= b0.subrange(start + fl, len as int));
                        assert(frame_split(cur).0 == seq![cur.subrange(3, fl as int)] + frame_split(next).0);
                        done = done.push(cur.subrange(3, fl as int));
                        assert(frame_split(b0).0 =~= done + frame_split(next).0);
                        assert(cut_point(b0, start + fl)) by {
                            if start + fl < len {
                                assert(b0[start + fl] == cur[fl as int]);
                            }
                        }
                    }
                    start = start + fl;
                },
            }
        }
        let rest = slice_range(&self.inner, start, len);
        assert(rest@ =~= b0.subrange(start as int, len as int));
        proof {
            lemma_valid_cut(b0, start as int, len as int);
        }
        self.inner = rest;
        match outcome {
            Some(e) => Err(e),
            None => Ok(packets),
        }
    }
}

proof fn lemma_last_invalid_none(bs: Seq<u8>)
    requires
        b64_last_invalid(bs) is None,
    ensures
        b64_all_valid(bs),
    decreases bs.len(),
{
    if bs.len() > 0 {
        lemma_last_invalid_none(bs.drop_last());
        assert forall|i: int| 0 <= i < bs.len() implies #[trigger] bs[i] >= 64 by {
            if i < bs.len() - 1 {
                assert(bs[i] == bs.drop_last()[i]);
            }
        }
    }
}

/// The bytes `b[from..to]` as a new vector.
fn slice_range(b: &Vec<u8>, from: usize, to: usize) -> (r: Vec<u8>)
    requires
        from <= to <= b@.len(),
    ensures
        r@ == b@.subrange(from as int, to as int),
{
    let mut out: Vec<u8> = Vec::new();
    let mut i = from;
    while i < to
        invariant
            from <= i <= to <= b@.len(),
            out@ =~= b@.subrange(from as int, i as int),
        decreases to - i,
    {
        out.push(b[i]);
        assert(b@.subrange(from as int, i + 1) =~= b@.subrange(from as int, i as int).push(b@[i as int]));
        i += 1;
    }
    out
}


/// The VL64 text of `v`.
pub open spec fn vl64_text(v: int) -> Seq<char> {
    bytes_text(vl64_encoding(v))
}

/// Appends the VL64 text of `v`.
pub fn push_vl64(s: &mut String, v: i32)
    requires
        v != i32::MIN,
    ensures
        final(s)@ == old(s)@ + vl64_text(v as int),
{
    let e = encode_vl64(v);
    crate::text::push_str(s, e.as_str());
}

} // verus!
