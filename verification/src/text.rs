//! Text utilities shared by the protocol code: character views of strings,
//! string building, decimal formatting and parsing of integers.
use vstd::prelude::*;
use vstd::utf8::*;

verus! {

broadcast use vstd::string::group_string_axioms;

/// Appends one character to a string (`String::push`).
#[verifier::external_body]
pub(crate) fn push_char(s: &mut String, c: char)
    ensures
        final(s)@ == old(s)@.push(c),
{
    s.push(c);
}

/// Appends a string slice to a string (`String::push_str`).
#[verifier::external_body]
pub(crate) fn push_str(s: &mut String, t: &str)
    ensures
        final(s)@ == old(s)@ + t@,
{
    s.push_str(t);
}

/// What `String::from_utf8_lossy` makes of a byte sequence.
pub uninterp spec fn spec_utf8_lossy(bytes: Seq<u8>) -> Seq<char>;

/// Decodes bytes with `String::from_utf8_lossy`: valid UTF-8 is decoded as it
/// stands; the replacement characters it puts for invalid sequences are not stated.
#[verifier::external_body]
pub(crate) fn utf8_lossy(bytes: &[u8]) -> (s: String)
    ensures
        s@ == spec_utf8_lossy(bytes@),
        valid_utf8(bytes@) ==> s@ == decode_utf8(bytes@),
{
    String::from_utf8_lossy(bytes).into_owned()
}

/// An owned copy of a string slice.
pub fn owned(s: &str) -> (r: String)
    ensures
        r@ == s@,
{
    s.to_owned()
}

/// The characters of a string slice, in order.
pub fn to_chars(s: &str) -> (v: Vec<char>)
    ensures
        v@ == s@,
{
    let mut v: Vec<char> = Vec::new();
    for c in it: s.chars()
        invariant
            v@ == it.seq().take(it.index() as int),
    {
        v.push(c);
    }
    v
}

/// Appends a sequence of characters to a string.
pub fn push_chars(s: &mut String, cs: &[char])
    ensures
        final(s)@ == old(s)@ + cs@,
{
    let n = cs.len();
    let mut i: usize = 0;
    while i < n
        invariant
            n == cs@.len(),
            0 <= i <= n,
            s@ == old(s)@ + cs@.take(i as int),
        decreases n - i,
    {
        push_char(s, cs[i]);
        assert(cs@.take(i + 1) =~= cs@.take(i as int).push(cs@[i as int]));
        i += 1;
    }
    assert(cs@.take(n as int) =~= cs@);
}

/// A string made of the given characters.
pub fn string_of(cs: &[char]) -> (s: String)
    ensures
        s@ == cs@,
{
    let mut s = String::new();
    push_chars(&mut s, cs);
    s
}

/// The ASCII digit for a value below ten.
pub open spec fn digit_char(d: int) -> char {
    (48 + d) as char
}

/// Decimal text of a natural number, without leading zeros.
pub open spec fn nat_text(n: nat) -> Seq<char>
    decreases n,
{
    if n < 10 {
        seq![digit_char(n as int)]
    } else {
        nat_text(n / 10).push(digit_char((n % 10) as int))
    }
}

/// Ten to the power `k`.
pub open spec fn pow10(k: nat) -> nat
    decreases k,
{
    if k == 0 {
        1
    } else {
        10 * pow10((k - 1) as nat)
    }
}

/// A number below `10^k` takes at most `k` digits.
pub proof fn lemma_nat_text_len(n: nat, k: nat)
    requires
        k >= 1,
        n < pow10(k),
    ensures
        nat_text(n).len() <= k,
    decreases n,
{
    if n >= 10 {
        assert(pow10(0) == 1);
        assert(k >= 2);
        assert(n / 10 < pow10((k - 1) as nat));
        lemma_nat_text_len(n / 10, (k - 1) as nat);
    }
}

/// The decimal text of an `i64` has at most 20 characters.
pub proof fn lemma_i64_text_len(n: i64)
    ensures
        int_text(n as int).len() <= 20,
{
    assert(pow10(19) == 10000000000000000000nat) by {
        reveal_with_fuel(pow10, 20);
    }
    let m: nat = if n < 0 { (-(n as int)) as nat } else { n as nat };
    lemma_nat_text_len(m, 19);
}

/// Decimal text of an integer, as `Display` writes it.
pub open spec fn int_text(n: int) -> Seq<char> {
    if n < 0 {
        seq!['-'] + nat_text((-n) as nat)
    } else {
        nat_text(n as nat)
    }
}

fn digit(d: u64) -> (c: char)
    requires
        d < 10,
    ensures
        c == digit_char(d as int),
{
    let b: u8 = 48u8 + d as u8;
    b as char
}

/// Appends the decimal text of `n`.
pub fn push_u64(s: &mut String, n: u64)
    ensures
        final(s)@ == old(s)@ + nat_text(n as nat),
    decreases n,
{
    if n >= 10 {
        push_u64(s, n / 10);
    }
    push_char(s, digit(n % 10));
    proof {
        if n >= 10 {
            assert(nat_text(n as nat) == nat_text((n / 10) as nat).push(digit_char((n % 10) as int)));
        }
    }
}

/// Appends the decimal text of `n`.
pub fn push_i64(s: &mut String, n: i64)
    ensures
        final(s)@ == old(s)@ + int_text(n as int),
{
    if n < 0 {
        push_char(s, '-');
        let m: u64 = if n == i64::MIN {
            9223372036854775808u64
        } else {
            (-n) as u64
        };
        push_u64(s, m);
        assert(final(s)@ =~= old(s)@ + int_text(n as int));
    } else {
        push_u64(s, n as u64);
    }
}

/// Decimal text of `n`, as `n.to_string()` gives it.
pub fn i64_text(n: i64) -> (s: String)
    ensures
        s@ == int_text(n as int),
{
    let mut s = String::new();
    push_i64(&mut s, n);
    assert(s@ =~= int_text(n as int));
    s
}

/// True for the ASCII digits '0' to '9'.
pub open spec fn is_digit(c: char) -> bool {
    '0' <= c && c <= '9'
}

/// True when every character is an ASCII digit.
pub open spec fn all_digits(s: Seq<char>) -> bool {
    forall|i: int| 0 <= i < s.len() ==> is_digit(#[trigger] s[i])
}

/// The value of a string of decimal digits (leading zeros allowed).
pub open spec fn digits_value(s: Seq<char>) -> nat
    decreases s.len(),
{
    if s.len() == 0 {
        0
    } else {
        (digits_value(s.drop_last()) * 10 + (s.last() as int - 48)) as nat
    }
}

/// What `str::parse` gives for an integer type whose range is `lo..=hi`:
/// an optional sign (`-` only when `signed`), then at least one ASCII digit,
/// nothing else, and a value in range.
pub open spec fn parse_int_spec(s: Seq<char>, signed: bool, lo: int, hi: int) -> Option<int> {
    if s.len() == 0 {
        None
    } else if (s[0] == '+' || s[0] == '-') && s.len() == 1 {
        None
    } else {
        let neg = s[0] == '-' && signed;
        let body = if s[0] == '+' || neg { s.drop_first() } else { s };
        if !all_digits(body) {
            None
        } else {
            let v: int = if neg { -(digits_value(body) as int) } else { digits_value(body) as int };
            if lo <= v && v <= hi {
                Some(v)
            } else {
                None
            }
        }
    }
}

const PARSE_CAP: u128 = 0x4_0000_0000_0000_0000u128;

fn parse_decimal(cs: &[char], signed: bool, lo: i128, hi: i128) -> (r: Option<i128>)
    requires
        -0x8000_0000_0000_0000 <= lo <= hi <= 0xffff_ffff_ffff_ffff,
    ensures
        r == (match parse_int_spec(cs@, signed, lo as int, hi as int) {
            Some(v) => Some(v as i128),
            None => None::<i128>,
        }),
{
    let n = cs.len();
    if n == 0 {
        return None;
    }
    if (cs[0] == '+' || cs[0] == '-') && n == 1 {
        return None;
    }
    let neg = cs[0] == '-' && signed;
    let start: usize = if cs[0] == '+' || neg { 1 } else { 0 };
    let ghost body = if cs@[0] == '+' || neg { cs@.drop_first() } else { cs@ };
    assert(body =~= cs@.subrange(start as int, n as int));
    let mut acc: u128 = 0;
    let mut i: usize = start;
    while i < n
        invariant
            n == cs@.len(),
            n > 0,
            !((cs@[0] == '+' || cs@[0] == '-') && n == 1),
            neg == (cs@[0] == '-' && signed),
            body == (if cs@[0] == '+' || neg { cs@.drop_first() } else { cs@ }),
            start <= i <= n,
            body =~= cs@.subrange(start as int, n as int),
            all_digits(cs@.subrange(start as int, i as int)),
            acc == if digits_value(cs@.subrange(start as int, i as int)) < PARSE_CAP {
                digits_value(cs@.subrange(start as int, i as int)) as int
            } else {
                PARSE_CAP as int
            },
        decreases n - i,
    {
        let c = cs[i];
        if !('0' <= c && c <= '9') {
            assert(body[i - start] == cs@[i as int]);
            assert(!is_digit(body[i - start]));
            assert(!all_digits(body));
            return None;
        }
        let ghost pre = cs@.subrange(start as int, i as int);
        let ghost next = cs@.subrange(start as int, i + 1);
        assert(next.drop_last() =~= pre);
        assert(next.last() == c);
        let d = (c as u32 - 48) as u128;
        if acc >= PARSE_CAP {
            acc = PARSE_CAP;
            assert(digits_value(next) >= digits_value(pre));
        } else {
            let t = acc * 10 + d;
            if t >= PARSE_CAP {
                acc = PARSE_CAP;
            } else {
                acc = t;
            }
        }
        assert(all_digits(next)) by {
            assert forall|j: int| 0 <= j < next.len() implies is_digit(#[trigger] next[j]) by {
                if j < pre.len() {
                    assert(next[j] == pre[j]);
                }
            }
        }
        i += 1;
    }
    assert(cs@.subrange(start as int, n as int) =~= body);
    let v: i128 = if acc >= PARSE_CAP {
        return None;
    } else if neg {
        -(acc as i128)
    } else {
        acc as i128
    };
    if lo <= v && v <= hi {
        Some(v)
    } else {
        None
    }
}

/// `s.parse::<i64>().ok()`.
pub fn parse_i64(s: &str) -> (r: Option<i64>)
    ensures
        r == (match parse_int_spec(s@, true, i64::MIN as int, i64::MAX as int) {
            Some(v) => Some(v as i64),
            None => None::<i64>,
        }),
{
    let cs = to_chars(s);
    match parse_decimal(cs.as_slice(), true, i64::MIN as i128, i64::MAX as i128) {
        Some(v) => Some(v as i64),
        None => None,
    }
}

/// `s.parse::<i32>().ok()`.
pub fn parse_i32(s: &str) -> (r: Option<i32>)
    ensures
        r == (match parse_int_spec(s@, true, i32::MIN as int, i32::MAX as int) {
            Some(v) => Some(v as i32),
            None => None::<i32>,
        }),
{
    let cs = to_chars(s);
    match parse_decimal(cs.as_slice(), true, i32::MIN as i128, i32::MAX as i128) {
        Some(v) => Some(v as i32),
        None => None,
    }
}

/// `s.parse::<u16>().ok()`.
pub fn parse_u16(s: &str) -> (r: Option<u16>)
    ensures
        r == (match parse_int_spec(s@, false, 0, 65535) {
            Some(v) => Some(v as u16),
            None => None::<u16>,
        }),
{
    let cs = to_chars(s);
    match parse_decimal(cs.as_slice(), false, 0, 65535) {
        Some(v) => Some(v as u16),
        None => None,
    }
}

/// `s.parse::<u8>().ok()`.
pub fn parse_u8(s: &str) -> (r: Option<u8>)
    ensures
        r == (match parse_int_spec(s@, false, 0, 255) {
            Some(v) => Some(v as u8),
            None => None::<u8>,
        }),
{
    let cs = to_chars(s);
    match parse_decimal(cs.as_slice(), false, 0, 255) {
        Some(v) => Some(v as u8),
        None => None,
    }
}


/// The Unicode `White_Space` characters, which `char::is_whitespace` and
/// `str::trim` go by.
pub open spec fn is_ws(c: char) -> bool {
    let u = c as u32;
    (9 <= u && u <= 13) || u == 32 || u == 0x85 || u == 0xa0 || u == 0x1680 || (0x2000 <= u
        && u <= 0x200a) || u == 0x2028 || u == 0x2029 || u == 0x202f || u == 0x205f || u
        == 0x3000
}

/// `c.is_whitespace()`.
pub fn char_is_ws(c: char) -> (r: bool)
    ensures
        r == is_ws(c),
{
    let u = c as u32;
    (9 <= u && u <= 13) || u == 32 || u == 0x85 || u == 0xa0 || u == 0x1680 || (0x2000 <= u
        && u <= 0x200a) || u == 0x2028 || u == 0x2029 || u == 0x202f || u == 0x205f || u
        == 0x3000
}

/// A sequence without its leading whitespace.
pub open spec fn trim_start_spec(s: Seq<char>) -> Seq<char>
    decreases s.len(),
{
    if s.len() > 0 && is_ws(s[0]) {
        trim_start_spec(s.drop_first())
    } else {
        s
    }
}

/// A sequence without its trailing whitespace.
pub open spec fn trim_end_spec(s: Seq<char>) -> Seq<char>
    decreases s.len(),
{
    if s.len() > 0 && is_ws(s.last()) {
        trim_end_spec(s.drop_last())
    } else {
        s
    }
}

/// What `str::trim` leaves of a sequence.
pub open spec fn trim_spec(s: Seq<char>) -> Seq<char> {
    trim_end_spec(trim_start_spec(s))
}

/// `s.trim()` on a character sequence.
pub fn trim_chars(s: &[char]) -> (r: Vec<char>)
    ensures
        r@ == trim_spec(s@),
{
    let n = s.len();
    let mut a: usize = 0;
    assert(s@.subrange(0, n as int) =~= s@);
    while a < n && char_is_ws(s[a])
        invariant
            n == s@.len(),
            0 <= a <= n,
            trim_start_spec(s@) == trim_start_spec(s@.subrange(a as int, n as int)),
        decreases n - a,
    {
        assert(s@.subrange(a as int, n as int).drop_first() =~= s@.subrange(a + 1, n as int));
        a += 1;
    }
    assert(trim_start_spec(s@.subrange(a as int, n as int)) == s@.subrange(a as int, n as int));
    let mut b: usize = n;
    while b > a && char_is_ws(s[b - 1])
        invariant
            n == s@.len(),
            0 <= a <= b <= n,
            trim_spec(s@) == trim_end_spec(s@.subrange(a as int, b as int)),
        decreases b - a,
    {
        assert(s@.subrange(a as int, b as int).drop_last() =~= s@.subrange(a as int, b - 1));
        b -= 1;
    }
    let mut r: Vec<char> = Vec::new();
    let mut i = a;
    while i < b
        invariant
            0 <= a <= i <= b <= n == s@.len(),
            r@ =~= s@.subrange(a as int, i as int),
        decreases b - i,
    {
        r.push(s[i]);
        assert(s@.subrange(a as int, i + 1) =~= s@.subrange(a as int, i as int).push(s@[i as int]));
        i += 1;
    }
    r
}

/// `s.trim()`, as an owned string.
pub fn trim_str(s: &str) -> (r: String)
    ensures
        r@ == trim_spec(s@),
{
    let cs = to_chars(s);
    let t = trim_chars(cs.as_slice());
    string_of(t.as_slice())
}

/// The pieces between the separators, as `str::split` with a `char` gives them.
pub open spec fn split_spec(s: Seq<char>, sep: char) -> Seq<Seq<char>>
    decreases s.len(),
{
    if s.len() == 0 {
        seq![Seq::<char>::empty()]
    } else {
        let r = split_spec(s.drop_last(), sep);
        if s.last() == sep {
            r.push(Seq::<char>::empty())
        } else {
            r.update(r.len() - 1, r.last().push(s.last()))
        }
    }
}

pub(crate) proof fn lemma_split_nonempty(s: Seq<char>, sep: char)
    ensures
        split_spec(s, sep).len() >= 1,
    decreases s.len(),
{
    if s.len() > 0 {
        lemma_split_nonempty(s.drop_last(), sep);
    }
}

/// `s.split(sep)`, as character sequences.
pub fn split_chars(s: &[char], sep: char) -> (r: Vec<Vec<char>>)
    ensures
        r@.len() == split_spec(s@, sep).len(),
        forall|i: int| 0 <= i < r@.len() ==> #[trigger] r@[i]@ == split_spec(s@, sep)[i],
{
    let n = s.len();
    let mut pieces: Vec<Vec<char>> = Vec::new();
    let mut cur: Vec<char> = Vec::new();
    let mut i: usize = 0;
    while i < n
        invariant
            n == s@.len(),
            0 <= i <= n,
            split_spec(s@.take(i as int), sep).len() == pieces@.len() + 1,
            forall|j: int| 0 <= j < pieces@.len() ==> #[trigger] pieces@[j]@ == split_spec(s@.take(i as int), sep)[j],
            cur@ == split_spec(s@.take(i as int), sep).last(),
        decreases n - i,
    {
        let ghost prev = split_spec(s@.take(i as int), sep);
        assert(s@.take(i + 1).drop_last() =~= s@.take(i as int));
        assert(s@.take(i + 1).last() == s@[i as int]);
        if s[i] == sep {
            let done = cur;
            pieces.push(done);
            cur = Vec::new();
        } else {
            cur.push(s[i]);
        }
        i += 1;
    }
    assert(s@.take(n as int) =~= s@);
    pieces.push(cur);
    pieces
}

/// The index of the first `c` in `s`, if any.
pub open spec fn find_char(s: Seq<char>, c: char) -> Option<int>
    decreases s.len(),
{
    if s.len() == 0 {
        None
    } else if s[0] == c {
        Some(0)
    } else {
        match find_char(s.drop_first(), c) {
            Some(i) => Some(i + 1),
            None => None,
        }
    }
}

/// The index of the first `c` in `s`, if any.
pub fn find_char_exec(s: &[char], c: char) -> (r: Option<usize>)
    ensures
        r is None <==> find_char(s@, c) is None,
        r matches Some(i) ==> i < s@.len() && s@[i as int] == c && find_char(s@, c) == Some(i as int),
{
    let n = s.len();
    let mut i: usize = 0;
    assert(s@.subrange(0, n as int) =~= s@);
    while i < n
        invariant
            n == s@.len(),
            0 <= i <= n,
            forall|j: int| 0 <= j < i ==> s@[j] != c,
            find_char(s@, c) == (match find_char(s@.subrange(i as int, n as int), c) {
                Some(k) => Some(k + i),
                None => None,
            }),
        decreases n - i,
    {
        if s[i] == c {
            assert(s@.subrange(i as int, n as int)[0] == c);
            return Some(i);
        }
        assert(s@.subrange(i as int, n as int)[0] != c);
        assert(s@.subrange(i as int, n as int).drop_first() =~= s@.subrange(i + 1, n as int));
        i += 1;
    }
    None
}

/// The characters `s[from..to]` as a new vector.
pub fn sub_chars(s: &[char], from: usize, to: usize) -> (r: Vec<char>)
    requires
        from <= to <= s@.len(),
    ensures
        r@ == s@.subrange(from as int, to as int),
{
    let mut r: Vec<char> = Vec::new();
    let mut i = from;
    while i < to
        invariant
            from <= i <= to <= s@.len(),
            r@ =~= s@.subrange(from as int, i as int),
        decreases to - i,
    {
        r.push(s[i]);
        assert(s@.subrange(from as int, i + 1) =~= s@.subrange(from as int, i as int).push(s@[i as int]));
        i += 1;
    }
    r
}

/// Two character sequences are equal.
pub fn chars_eq(a: &[char], b: &[char]) -> (r: bool)
    ensures
        r == (a@ == b@),
{
    if a.len() != b.len() {
        return false;
    }
    let n = a.len();
    let mut i: usize = 0;
    while i < n
        invariant
            n == a@.len() == b@.len(),
            0 <= i <= n,
            forall|j: int| 0 <= j < i ==> a@[j] == b@[j],
        decreases n - i,
    {
        if a[i] != b[i] {
            return false;
        }
        i += 1;
    }
    assert(a@ =~= b@);
    true
}

/// Two strings are equal.
pub fn str_eq(a: &str, b: &str) -> (r: bool)
    ensures
        r == (a@ == b@),
{
    let x = to_chars(a);
    let y = to_chars(b);
    chars_eq(x.as_slice(), y.as_slice())
}


/// `x as i32` for a 64-bit integer: the low 32 bits read as signed.
pub open spec fn wrap32(x: int) -> int {
    let r = x % 0x1_0000_0000;
    if r >= 0x8000_0000 {
        r - 0x1_0000_0000
    } else {
        r
    }
}

/// `x as i32`.
pub fn trunc_i64(x: i64) -> (r: i32)
    ensures
        r == wrap32(x as int),
{
    let m: i64 = 0x1_0000_0000;
    let mut q: i64 = x % m;
    if q < 0 {
        q = q + m;
    }
    assert(q == (x as int) % 0x1_0000_0000);
    if q >= 0x8000_0000 {
        (q - m) as i32
    } else {
        q as i32
    }
}

/// `x as i32` for a `usize`.
pub fn trunc_usize(x: usize) -> (r: i32)
    ensures
        r == wrap32(x as int),
{
    let q: u64 = (x as u64) % 0x1_0000_0000u64;
    assert(q == (x as int) % 0x1_0000_0000);
    if q >= 0x8000_0000 {
        (q as i64 - 0x1_0000_0000i64) as i32
    } else {
        q as i32
    }
}


/// The rest of `s` after the prefix `p`, if `s` starts with it.
pub open spec fn strip_prefix_spec(s: Seq<char>, p: Seq<char>) -> Option<Seq<char>> {
    if p.len() <= s.len() && s.subrange(0, p.len() as int) == p {
        Some(s.subrange(p.len() as int, s.len() as int))
    } else {
        None
    }
}

/// `s.strip_prefix(p)` on character sequences.
pub fn strip_prefix_chars(s: &[char], p: &[char]) -> (r: Option<Vec<char>>)
    ensures
        r is None <==> strip_prefix_spec(s@, p@) is None,
        r matches Some(v) ==> strip_prefix_spec(s@, p@) == Some(v@),
{
    if p.len() > s.len() {
        return None;
    }
    let head = sub_chars(s, 0, p.len());
    if !chars_eq(head.as_slice(), p) {
        return None;
    }
    Some(sub_chars(s, p.len(), s.len()))
}

/// `s.parse::<i32>().ok()` on a character sequence.
pub fn parse_i32_chars(cs: &[char]) -> (r: Option<i32>)
    ensures
        r == (match parse_int_spec(cs@, true, i32::MIN as int, i32::MAX as int) {
            Some(v) => Some(v as i32),
            None => None::<i32>,
        }),
{
    match parse_decimal(cs, true, i32::MIN as i128, i32::MAX as i128) {
        Some(v) => Some(v as i32),
        None => None,
    }
}

/// `s.parse::<i64>().ok()` on a character sequence.
pub fn parse_i64_chars(cs: &[char]) -> (r: Option<i64>)
    ensures
        r == (match parse_int_spec(cs@, true, i64::MIN as int, i64::MAX as int) {
            Some(v) => Some(v as i64),
            None => None::<i64>,
        }),
{
    match parse_decimal(cs, true, i64::MIN as i128, i64::MAX as i128) {
        Some(v) => Some(v as i64),
        None => None,
    }
}

} // verus!
