//! Text helpers of the string manager and the database layer: substrings by
//! character, joining chat command parameters, and escaping for SQL
//! literals.
use vstd::prelude::*;

use vstd::string::StringSliceAdditionalSpecFns;
use vstd::utf8::{decode_utf8, encode_utf8, is_char_boundary, valid_utf8};

use crate::text::{push_char, push_str, to_chars, string_of, sub_chars, utf8_lossy};

verus! {

/// `n` characters of `s` from character `start` on, as far as `s` reaches.
pub open spec fn string_part_spec(s: Seq<char>, start: int, n: int) -> Seq<char> {
    let a = if start < s.len() { start } else { s.len() as int };
    let b = if a + n < s.len() { a + n } else { s.len() as int };
    s.subrange(a, b)
}

/// Up to `length` characters of `input`, starting at character
/// `start_index`.
pub fn get_string_part(input: &str, start_index: usize, length: usize) -> (r: String)
    ensures
        r@ == string_part_spec(input@, start_index as int, length as int),
{
    let cs = to_chars(input);
    let n = cs.len();
    let a = if start_index < n { start_index } else { n };
    let b = if length < n - a { a + length } else { n };
    let part = sub_chars(cs.as_slice(), a, b);
    string_of(part.as_slice())
}

/// The words joined with single spaces.
pub open spec fn join_words(ws: Seq<Seq<char>>) -> Seq<char>
    decreases ws.len(),
{
    if ws.len() == 0 {
        Seq::empty()
    } else if ws.len() == 1 {
        ws[0]
    } else {
        join_words(ws.drop_last()) + seq![' '] + ws.last()
    }
}

/// The views of a sequence of strings.
pub open spec fn strings_view(v: Seq<String>) -> Seq<Seq<char>> {
    v.map_values(|s: String| s@)
}

/// The parameters from `start_index` on, joined with single spaces.
pub fn wrap_parameters(params: &[String], start_index: usize) -> (r: String)
    ensures
        r@ == join_words(
            strings_view(params@).subrange(
                if start_index < params@.len() { start_index as int } else { params@.len() as int },
                params@.len() as int,
            ),
        ),
{
    let n = params.len();
    let a = if start_index < n { start_index } else { n };
    let ghost all = strings_view(params@);
    let mut out = String::new();
    let mut i = a;
    assert(all.subrange(a as int, a as int) =~= Seq::<Seq<char>>::empty());
    while i < n
        invariant
            n == params@.len(),
            all == strings_view(params@),
            a <= i <= n,
            out@ == join_words(all.subrange(a as int, i as int)),
        decreases n - i,
    {
        let ghost prev = all.subrange(a as int, i as int);
        let ghost next = all.subrange(a as int, i + 1);
        assert(next.drop_last() =~= prev);
        assert(next.last() == params@[i as int]@);
        if i > a {
            push_char(&mut out, ' ');
        }
        push_str(&mut out, params[i].as_str());
        assert(out@ =~= join_words(next));
        i += 1;
    }
    out
}

/// A character as it stands inside a quoted SQL literal: a backslash and a
/// single quote are escaped with a backslash.
pub open spec fn escape_char(c: char) -> Seq<char> {
    if c == '\\' {
        seq!['\\', '\\']
    } else if c == '\'' {
        seq!['\\', '\'']
    } else {
        seq![c]
    }
}

/// Each character of `s` escaped in turn.
pub open spec fn escape_spec(s: Seq<char>) -> Seq<char>
    decreases s.len(),
{
    if s.len() == 0 {
        Seq::empty()
    } else {
        escape_spec(s.drop_last()) + escape_char(s.last())
    }
}

/// Escapes a value for a quoted SQL literal: every backslash is doubled and
/// every single quote gets a backslash before it.
pub fn stripslash(value: &str) -> (r: String)
    ensures
        r@ == escape_spec(value@),
{
    let cs = to_chars(value);
    let n = cs.len();
    let mut out = String::new();
    let mut i: usize = 0;
    assert(value@.take(0) =~= Seq::<char>::empty());
    while i < n
        invariant
            n == value@.len(),
            cs@ == value@,
            i <= n,
            out@ == escape_spec(value@.take(i as int)),
        decreases n - i,
    {
        let c = cs[i];
        assert(value@.take(i + 1).drop_last() =~= value@.take(i as int));
        if c == '\\' {
            push_char(&mut out, '\\');
            push_char(&mut out, '\\');
        } else if c == '\'' {
            push_char(&mut out, '\\');
            push_char(&mut out, '\'');
        } else {
            push_char(&mut out, c);
        }
        assert(out@ =~= escape_spec(value@.take(i + 1)));
        i += 1;
    }
    assert(value@.take(n as int) =~= value@);
    out
}

/// Reads an escaped literal back: a backslash takes the character after it
/// as it stands.
pub open spec fn unescape_spec(s: Seq<char>) -> Seq<char>
    decreases s.len(),
{
    if s.len() == 0 {
        Seq::empty()
    } else if s[0] == '\\' && s.len() >= 2 {
        seq![s[1]] + unescape_spec(s.subrange(2, s.len() as int))
    } else {
        seq![s[0]] + unescape_spec(s.drop_first())
    }
}

/// Escaping then reading back a prefix and a rest reads back to the prefix
/// followed by the rest.
proof fn lemma_unescape_append(a: Seq<char>, rest: Seq<char>)
    ensures
        unescape_spec(escape_spec(a) + rest) == a + unescape_spec(rest),
    decreases a.len(),
{
    if a.len() == 0 {
        assert(escape_spec(a) + rest =~= rest);
        assert(a + unescape_spec(rest) =~= unescape_spec(rest));
    } else {
        let c = a[0];
        let tail = a.drop_first();
        assert(a =~= seq![c] + tail);
        lemma_escape_front(c, tail);
        let e = escape_char(c);
        assert(escape_spec(a) + rest =~= e + (escape_spec(tail) + rest));
        lemma_unescape_append(tail, rest);
        let t = e + (escape_spec(tail) + rest);
        if c == '\\' || c == '\'' {
            assert(t[0] == '\\');
            assert(t[1] == c);
            assert(t.subrange(2, t.len() as int) =~= escape_spec(tail) + rest);
        } else {
            assert(t[0] == c);
            assert(t.drop_first() =~= escape_spec(tail) + rest);
        }
        assert(a =~= seq![c] + tail);
        assert(a + unescape_spec(rest) =~= seq![c] + (tail + unescape_spec(rest)));
    }
}

/// Escaping a non-empty sequence escapes its first character first.
proof fn lemma_escape_front(c: char, tail: Seq<char>)
    ensures
        escape_spec(seq![c] + tail) == escape_char(c) + escape_spec(tail),
    decreases tail.len(),
{
    let st = seq![c] + tail;
    if tail.len() == 0 {
        assert(st =~= seq![c]);
        assert(st.drop_last() =~= Seq::<char>::empty());
        assert(escape_spec(st) == escape_spec(st.drop_last()) + escape_char(st.last()));
        assert(escape_spec(st) =~= escape_char(c));
        assert(escape_char(c) + escape_spec(tail) =~= escape_char(c));
    } else {
        let init = tail.drop_last();
        let last = tail.last();
        lemma_escape_front(c, init);
        assert(st.drop_last() =~= seq![c] + init);
        assert(st.last() == last);
        assert(escape_spec(st) == escape_spec(st.drop_last()) + escape_char(st.last()));
        assert(escape_spec(tail) == escape_spec(init) + escape_char(last));
        assert(escape_spec(st) =~= escape_char(c) + escape_spec(tail));
    }
}

/// Reading an escaped value back gives the value: escaping loses nothing.
pub proof fn law_stripslash_reads_back(s: Seq<char>)
    ensures
        unescape_spec(escape_spec(s)) == s,
{
    lemma_unescape_append(s, Seq::empty());
    assert(escape_spec(s) + Seq::<char>::empty() =~= escape_spec(s));
    assert(s + Seq::<char>::empty() =~= s);
}

/// An escaped value holds no single quote without a backslash before it,
/// so it cannot end the literal it stands in.
pub proof fn law_stripslash_quotes_escaped(s: Seq<char>)
    ensures
        forall|i: int| 0 <= i < escape_spec(s).len() && #[trigger] escape_spec(s)[i] == '\'' ==> i > 0
            && escape_spec(s)[i - 1] == '\\',
    decreases s.len(),
{
    if s.len() > 0 {
        let init = s.drop_last();
        law_stripslash_quotes_escaped(init);
        let e = escape_spec(s);
        assert(e =~= escape_spec(init) + escape_char(s.last()));
        assert forall|i: int| 0 <= i < e.len() && #[trigger] e[i] == '\'' implies i > 0 && e[i - 1] == '\\' by {
            let k = escape_spec(init).len() as int;
            if i < k {
                assert(e[i] == escape_spec(init)[i]);
                assert(e[i - 1] == escape_spec(init)[i - 1]);
            } else {
                assert(e[i] == escape_char(s.last())[i - k]);
                assert(s.last() == '\'');
                assert(i == k + 1);
            }
        }
    }
}

/// The query that reads a setting of the `system_config` table, with the
/// key escaped.
pub fn table_entry_query(key: &str) -> (r: String)
    ensures
        r@ == "SELECT sval FROM system_config WHERE skey = '"@ + escape_spec(key@) + "' LIMIT 1"@,
{
    let mut q = crate::text::owned("SELECT sval FROM system_config WHERE skey = '");
    let escaped = stripslash(key);
    push_str(&mut q, escaped.as_str());
    push_str(&mut q, "' LIMIT 1");
    q
}

// ---------------------------------------------------------------- word filter

/// What `str::to_lowercase` makes of a text.
pub uninterp spec fn lowercase_of(s: Seq<char>) -> Seq<char>;

/// The text in lower case (`str::to_lowercase`, by Unicode's rules).
#[verifier::external_body]
pub(crate) fn lowercase(s: &str) -> (r: String)
    ensures
        r@ == lowercase_of(s@),
{
    s.to_lowercase()
}

/// Whether `pat` stands at byte `i` of `hay`.
pub open spec fn bytes_at(hay: Seq<u8>, pat: Seq<u8>, i: int) -> bool {
    0 <= i && i + pat.len() <= hay.len() && hay.subrange(i, i + pat.len()) == pat
}

/// The first byte index from `i` on where `pat` stands in `hay`.
pub open spec fn find_from(hay: Seq<u8>, pat: Seq<u8>, i: int) -> Option<int>
    decreases hay.len() + 1 - i,
{
    if i < 0 || i + pat.len() > hay.len() {
        None
    } else if bytes_at(hay, pat, i) {
        Some(i)
    } else {
        find_from(hay, pat, i + 1)
    }
}

pub proof fn lemma_find_from_range(hay: Seq<u8>, pat: Seq<u8>, i: int)
    ensures
        find_from(hay, pat, i) matches Some(k) ==> i <= k && k + pat.len() <= hay.len() && bytes_at(hay, pat, k),
    decreases hay.len() + 1 - i,
{
    if !(i < 0 || i + pat.len() > hay.len()) && !bytes_at(hay, pat, i) {
        lemma_find_from_range(hay, pat, i + 1);
    }
}

/// The bytes of `input` with every match of the lowered needle in the
/// lowered input, from byte `cursor` on, replaced: the text between matches
/// is copied from `input` at the same byte offsets, and each match skips
/// the needle's own byte length.
pub open spec fn replaced_bytes(inb: Seq<u8>, lowb: Seq<u8>, nlow: Seq<u8>, nlen: int, rep: Seq<u8>, cursor: int) -> Seq<u8>
    decreases lowb.len() + nlen + 1 - cursor,
{
    if nlen <= 0 || cursor < 0 || cursor > lowb.len() {
        Seq::empty()
    } else {
        match find_from(lowb, nlow, cursor) {
            Some(st) => {
                proof {
                    lemma_find_from_range(lowb, nlow, cursor);
                }
                inb.subrange(cursor, st) + rep + replaced_bytes(inb, lowb, nlow, nlen, rep, st + nlen)
            },
            None => inb.subrange(cursor, inb.len() as int),
        }
    }
}

/// The replacement from `cursor` on runs without slicing a text off a
/// character or past its end.
pub open spec fn replace_runs(inb: Seq<u8>, lowb: Seq<u8>, nlow: Seq<u8>, nlen: int, cursor: int) -> bool
    decreases lowb.len() + nlen + 1 - cursor,
{
    if nlen <= 0 || cursor < 0 || cursor > lowb.len() {
        false
    } else {
        &&& is_char_boundary(lowb, cursor)
        &&& match find_from(lowb, nlow, cursor) {
            Some(st) => {
                proof {
                    lemma_find_from_range(lowb, nlow, cursor);
                }
                &&& st <= inb.len()
                &&& st + nlen <= usize::MAX
                &&& is_char_boundary(inb, cursor)
                &&& is_char_boundary(inb, st)
                &&& replace_runs(inb, lowb, nlow, nlen, st + nlen)
            },
            None => cursor <= inb.len() && is_char_boundary(inb, cursor),
        }
    }
}

/// What replacing `needle` without regard to case makes of `input`, given
/// the lowered forms of both.
pub open spec fn replace_ci_spec(input: Seq<char>, needle: Seq<char>, replacement: Seq<char>, lower_input: Seq<char>, lower_needle: Seq<char>) -> Seq<char> {
    if needle.len() == 0 {
        input
    } else {
        decode_utf8(replaced_bytes(encode_utf8(input), encode_utf8(lower_input), encode_utf8(lower_needle), encode_utf8(needle).len() as int, encode_utf8(replacement), 0))
    }
}

/// The replacement runs through for these texts and their lowered forms.
pub open spec fn replace_ci_runs(input: Seq<char>, needle: Seq<char>, lower_input: Seq<char>, lower_needle: Seq<char>) -> bool {
    needle.len() > 0 ==> replace_runs(encode_utf8(input), encode_utf8(lower_input), encode_utf8(lower_needle), encode_utf8(needle).len() as int, 0)
}

proof fn lemma_encode_nonempty(s: Seq<char>)
    requires
        s.len() > 0,
    ensures
        encode_utf8(s).len() > 0,
{
    let b = encode_utf8(s);
    vstd::utf8::encode_utf8_first_scalar(s);
}

/// The first index from `i` on where `pat` stands in `hay` (see `find_from`).
fn find_bytes(hay: &[u8], pat: &[u8], i: usize) -> (r: Option<usize>)
    ensures
        r matches Some(k) ==> find_from(hay@, pat@, i as int) == Some(k as int),
        r is None ==> find_from(hay@, pat@, i as int) is None,
{
    let n = hay.len();
    let m = pat.len();
    let mut k = i;
    while k <= n && m <= n - k
        invariant
            n == hay@.len(),
            m == pat@.len(),
            i <= k,
            find_from(hay@, pat@, i as int) == find_from(hay@, pat@, k as int),
        decreases n + 1 - k,
    {
        let mut j: usize = 0;
        while j < m && hay[k + j] == pat[j]
            invariant
                k + m <= n,
                n == hay@.len(),
                m == pat@.len(),
                j <= m,
                forall|q: int| 0 <= q < j ==> hay@[k + q] == pat@[q],
            decreases m - j,
        {
            j += 1;
        }
        if j == m {
            assert(hay@.subrange(k as int, k + m) =~= pat@);
            return Some(k);
        }
        assert(hay@.subrange(k as int, k + m)[j as int] != pat@[j as int]);
        k += 1;
    }
    None
}

/// Appends `b[from..to]` to `out`.
fn push_bytes(out: &mut Vec<u8>, b: &[u8], from: usize, to: usize)
    requires
        from <= to <= b@.len(),
    ensures
        final(out)@ == old(out)@ + b@.subrange(from as int, to as int),
{
    let mut i = from;
    while i < to
        invariant
            from <= i <= to <= b@.len(),
            out@ == old(out)@ + b@.subrange(from as int, i as int),
        decreases to - i,
    {
        out.push(b[i]);
        assert(b@.subrange(from as int, i + 1) =~= b@.subrange(from as int, i as int).push(b@[i as int]));
        i += 1;
    }
}

/// The bytes between two character boundaries of valid UTF-8 are valid UTF-8.
proof fn lemma_valid_slice(b: Seq<u8>, a: int, c: int)
    requires
        valid_utf8(b),
        0 <= a <= c <= b.len(),
        is_char_boundary(b, a),
        is_char_boundary(b, c),
    ensures
        valid_utf8(b.subrange(a, c)),
{
    vstd::utf8::valid_utf8_split(b, c);
    let head = b.subrange(0, c);
    if a < c {
        vstd::utf8::is_char_boundary_iff_not_is_continuation_byte(b, a);
        vstd::utf8::is_char_boundary_iff_not_is_continuation_byte(head, a);
        assert(head[a] == b[a]);
    } else {
        vstd::utf8::is_char_boundary_start_end_of_seq(head);
        assert(head.len() == c);
    }
    vstd::utf8::valid_utf8_split(head, a);
    assert(head.subrange(a, head.len() as int) =~= b.subrange(a, c));
}

/// One match of the replacement, unfolded.
proof fn lemma_replace_match(inb: Seq<u8>, lowb: Seq<u8>, nlow: Seq<u8>, nlen: int, rep: Seq<u8>, cursor: int, st: int)
    requires
        nlen > 0,
        0 <= cursor <= lowb.len(),
        find_from(lowb, nlow, cursor) == Some(st),
    ensures
        replaced_bytes(inb, lowb, nlow, nlen, rep, cursor) == inb.subrange(cursor, st) + rep + replaced_bytes(inb, lowb, nlow, nlen, rep, st + nlen),
        replace_runs(inb, lowb, nlow, nlen, cursor) == (is_char_boundary(lowb, cursor) && st <= inb.len() && st + nlen <= usize::MAX && is_char_boundary(inb, cursor) && is_char_boundary(inb, st) && replace_runs(inb, lowb, nlow, nlen, st + nlen)),
        cursor <= st,
        st + nlen <= lowb.len() + nlen,
{
    lemma_find_from_range(lowb, nlow, cursor);
}

/// The last piece of the replacement, unfolded.
proof fn lemma_replace_rest(inb: Seq<u8>, lowb: Seq<u8>, nlow: Seq<u8>, nlen: int, rep: Seq<u8>, cursor: int)
    requires
        nlen > 0,
        0 <= cursor <= lowb.len(),
        find_from(lowb, nlow, cursor) is None,
    ensures
        replaced_bytes(inb, lowb, nlow, nlen, rep, cursor) == inb.subrange(cursor, inb.len() as int),
        replace_runs(inb, lowb, nlow, nlen, cursor) == (is_char_boundary(lowb, cursor) && cursor <= inb.len() && is_char_boundary(inb, cursor)),
{
}

/// Appends a slice of valid UTF-8 text and then the replacement.
fn push_match(out: &mut Vec<u8>, inb: &[u8], rep: &[u8], cursor: usize, st: usize)
    requires
        valid_utf8(old(out)@),
        valid_utf8(inb@),
        valid_utf8(rep@),
        cursor <= st <= inb@.len(),
        is_char_boundary(inb@, cursor as int),
        is_char_boundary(inb@, st as int),
    ensures
        final(out)@ == old(out)@ + inb@.subrange(cursor as int, st as int) + rep@,
        valid_utf8(final(out)@),
{
    proof {
        lemma_valid_slice(inb@, cursor as int, st as int);
    }
    let ghost o0 = out@;
    push_bytes(out, inb, cursor, st);
    push_bytes(out, rep, 0, rep.len());
    assert(rep@.subrange(0, rep@.len() as int) =~= rep@);
    assert(out@ =~= o0 + inb@.subrange(cursor as int, st as int) + rep@);
    proof {
        vstd::utf8::valid_utf8_concat(o0, inb@.subrange(cursor as int, st as int));
        vstd::utf8::valid_utf8_concat(o0 + inb@.subrange(cursor as int, st as int), rep@);
    }
}

/// The replacement, run with a check before each cut (see
/// `replace_ci_spec`); `None` where a cut would fall off a character or past
/// the end of a text.
fn replace_checked(input: &str, needle: &str, replacement: &str) -> (r: Option<String>)
    ensures
        r is Some <==> replace_ci_runs(input@, needle@, lowercase_of(input@), lowercase_of(needle@)),
        r matches Some(s) ==> s@ == replace_ci_spec(input@, needle@, replacement@, lowercase_of(input@), lowercase_of(needle@)),
{
    if needle.is_empty() {
        return Some(input.to_owned());
    }
    let lower_input = lowercase(input);
    let lower_needle = lowercase(needle);
    let lower_str = lower_input.as_str();
    let inb = input.as_bytes();
    let lowb = lower_str.as_bytes();
    let nlow = lower_needle.as_str().as_bytes();
    let nb = needle.as_bytes();
    let rep = replacement.as_bytes();
    let nlen = nb.len();
    let ghost gi = inb@;
    let ghost gl = lowb@;
    let ghost gn = nlow@;
    let ghost gr = rep@;
    proof {
        vstd::utf8::encode_utf8_valid_utf8(input@);
        vstd::utf8::encode_utf8_valid_utf8(replacement@);
        vstd::utf8::encode_utf8_valid_utf8(lower_input@);
        lemma_encode_nonempty(needle@);
    }
    let mut out: Vec<u8> = Vec::new();
    let mut cursor: usize = 0;
    assert(valid_utf8(out@)) by {
        assert(out@.len() == 0);
    }
    assert(replaced_bytes(gi, gl, gn, nlen as int, gr, 0) =~= out@ + replaced_bytes(gi, gl, gn, nlen as int, gr, cursor as int));
    loop
        invariant
            gi == inb@,
            gl == lowb@,
            gn == nlow@,
            gr == rep@,
            gi == encode_utf8(input@),
            gl == encode_utf8(lowercase_of(input@)),
            gn == encode_utf8(lowercase_of(needle@)),
            gr == encode_utf8(replacement@),
            lower_str@ == lowercase_of(input@),
            nlen as int == encode_utf8(needle@).len(),
            valid_utf8(gi),
            valid_utf8(gr),
            nlen > 0,
            cursor <= gl.len() + nlen,
            valid_utf8(out@),
            replace_runs(gi, gl, gn, nlen as int, 0) == replace_runs(gi, gl, gn, nlen as int, cursor as int),
            replaced_bytes(gi, gl, gn, nlen as int, gr, 0) == out@ + replaced_bytes(gi, gl, gn, nlen as int, gr, cursor as int),
        decreases gl.len() + nlen + 1 - cursor,
    {
        if cursor > lowb.len() || !lower_str.is_char_boundary(cursor) {
            return None;
        }
        match find_bytes(lowb, nlow, cursor) {
            Some(st) => {
                proof {
                    lemma_replace_match(gi, gl, gn, nlen as int, gr, cursor as int, st as int);
                }
                if st > inb.len() || st > usize::MAX - nlen || !input.is_char_boundary(cursor) || !input.is_char_boundary(st) {
                    return None;
                }
                let ghost o0 = out@;
                push_match(&mut out, inb, rep, cursor, st);
                assert(o0 + replaced_bytes(gi, gl, gn, nlen as int, gr, cursor as int) =~= out@ + replaced_bytes(gi, gl, gn, nlen as int, gr, st + nlen));
                cursor = st + nlen;
            },
            None => {
                proof {
                    lemma_replace_rest(gi, gl, gn, nlen as int, gr, cursor as int);
                }
                if cursor > inb.len() || !input.is_char_boundary(cursor) {
                    return None;
                }
                proof {
                    vstd::utf8::is_char_boundary_start_end_of_seq(gi);
                    lemma_valid_slice(gi, cursor as int, gi.len() as int);
                }
                let ghost o0 = out@;
                push_bytes(&mut out, inb, cursor, inb.len());
                proof {
                    vstd::utf8::valid_utf8_concat(o0, gi.subrange(cursor as int, gi.len() as int));
                }
                assert(replaced_bytes(gi, gl, gn, nlen as int, gr, 0) =~= out@);
                let s = utf8_lossy(out.as_slice());
                return Some(s);
            },
        }
    }
}

/// Whether replacing `needle` in `input` runs through (see `replace_ci_runs`).
pub fn replace_case_insensitive_runs(input: &str, needle: &str) -> (r: bool)
    ensures
        r == replace_ci_runs(input@, needle@, lowercase_of(input@), lowercase_of(needle@)),
{
    replace_checked(input, needle, "").is_some()
}

/// Replaces every match of `needle` in `input` by `replacement`, ignoring
/// case as `to_lowercase` sees it (see `replace_ci_spec`).
pub fn replace_case_insensitive(input: &str, needle: &str, replacement: &str) -> (r: String)
    requires
        replace_ci_runs(input@, needle@, lowercase_of(input@), lowercase_of(needle@)),
    ensures
        r@ == replace_ci_spec(input@, needle@, replacement@, lowercase_of(input@), lowercase_of(needle@)),
{
    match replace_checked(input, needle, replacement) {
        Some(s) => s,
        None => String::new(),
    }
}

/// Replaces every match of `needle` in `input` by `replacement`, ignoring
/// case (see `replace_ci_spec`); `None`, where the replacement would cut a
/// text off a character or past its end.
pub fn try_replace_case_insensitive(input: &str, needle: &str, replacement: &str) -> (r: Option<String>)
    ensures
        r is Some <==> replace_ci_runs(input@, needle@, lowercase_of(input@), lowercase_of(needle@)),
        r matches Some(s) ==> s@ == replace_ci_spec(input@, needle@, replacement@, lowercase_of(input@), lowercase_of(needle@)),
{
    if replace_case_insensitive_runs(input, needle) {
        Some(replace_case_insensitive(input, needle, replacement))
    } else {
        None
    }
}

} // verus!
