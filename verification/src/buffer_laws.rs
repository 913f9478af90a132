//! What the packet buffer promises for clients that send ASCII: frames
//! pushed one after another come out of `next_packets` in order, each once.
use vstd::prelude::*;
use vstd::utf8::*;

use crate::codec::{client_frame, frame_split, frames_of, frames_sliceable, law_frames_read_back_in_order, CodecError};

verus! {

broadcast use vstd::utf8::encode_utf8_valid_utf8, vstd::utf8::encode_utf8_decode_utf8, vstd::utf8::is_ascii_chars_encode_utf8;

/// Every byte is ASCII.
pub open spec fn ascii_bytes(b: Seq<u8>) -> bool {
    forall|i: int| 0 <= i < b.len() ==> #[trigger] b[i] < 128
}

/// The characters of ASCII bytes, one per byte.
pub open spec fn ascii_text(b: Seq<u8>) -> Seq<char> {
    Seq::new(b.len(), |i: int| b[i] as char)
}

proof fn lemma_ascii_utf8(b: Seq<u8>)
    requires
        ascii_bytes(b),
    ensures
        valid_utf8(b),
        decode_utf8(b) == ascii_text(b),
{
    let c = ascii_text(b);
    assert forall|i: int| 0 <= i < c.len() implies '\0' <= #[trigger] c[i] <= '\u{7f}' by {
        assert(b[i] < 128);
    }
    assert(is_ascii_chars(c));
    let e = encode_utf8(c);
    assert(e.len() == c.len());
    assert forall|i: int| 0 <= i < b.len() implies #[trigger] e[i] == b[i] by {
        assert(c[i] as u8 == e[i]);
        assert(b[i] < 128);
    }
    assert(e =~= b);
}

proof fn lemma_ascii_sliceable(b: Seq<u8>)
    requires
        ascii_bytes(b),
    ensures
        frames_sliceable(b),
    decreases b.len(),
{
    if b.len() >= 3 {
        assert(b[1] < 128);
        if b.len() > 3 {
            assert(b[3] < 128);
        }
        match crate::codec::b64_decode_spec(b.subrange(1, 3)) {
            Err(_) => {},
            Ok(l) => {
                let fl = l + 3;
                if !(l < 0 || b.len() < fl) {
                    if fl < b.len() {
                        assert(b[fl] < 128);
                    }
                    let r = b.subrange(fl, b.len() as int);
                    assert forall|i: int| 0 <= i < r.len() implies #[trigger] r[i] < 128 by {
                        assert(r[i] == b[fl + i]);
                    }
                    lemma_ascii_sliceable(r);
                }
            },
        }
    }
}

proof fn lemma_frame_ascii(marker: u8, p: Seq<u8>)
    requires
        marker < 128,
        ascii_bytes(p),
        p.len() < 4096,
    ensures
        ascii_bytes(client_frame(marker, p)),
{
    let f = client_frame(marker, p);
    assert forall|i: int| 0 <= i < f.len() implies #[trigger] f[i] < 128 by {
        if i >= 3 {
            assert(f[i] == p[i - 3]);
        }
    }
}

proof fn lemma_concat_ascii(a: Seq<u8>, b: Seq<u8>)
    requires
        ascii_bytes(a),
        ascii_bytes(b),
    ensures
        ascii_bytes(a + b),
{
    assert forall|i: int| 0 <= i < (a + b).len() implies #[trigger] (a + b)[i] < 128 by {
        if i < a.len() {
            assert((a + b)[i] == a[i]);
        } else {
            assert((a + b)[i] == b[i - a.len()]);
        }
    }
}

proof fn lemma_frames_ascii(marker: u8, ps: Seq<Seq<u8>>)
    requires
        marker < 128,
        forall|i: int| 0 <= i < ps.len() ==> ascii_bytes(#[trigger] ps[i]) && ps[i].len() < 4096,
    ensures
        ascii_bytes(frames_of(marker, ps)),
    decreases ps.len(),
{
    if ps.len() > 0 {
        let tail = ps.subrange(1, ps.len() as int);
        assert forall|i: int| 0 <= i < tail.len() implies ascii_bytes(#[trigger] tail[i]) && tail[i].len() < 4096 by {
            assert(tail[i] == ps[i + 1]);
        }
        lemma_frames_ascii(marker, tail);
        assert(ascii_bytes(ps[0]) && ps[0].len() < 4096);
        lemma_frame_ascii(marker, ps[0]);
        lemma_concat_ascii(client_frame(marker, ps[0]), frames_of(marker, tail));
    }
}

proof fn lemma_sub_ascii(b: Seq<u8>, i: int, j: int)
    requires
        ascii_bytes(b),
        0 <= i <= j <= b.len(),
    ensures
        ascii_bytes(b.subrange(i, j)),
{
    assert forall|k: int| 0 <= k < j - i implies #[trigger] b.subrange(i, j)[k] < 128 by {
        assert(b.subrange(i, j)[k] == b[i + k]);
    }
}

/// Frames of ASCII payloads pushed into the buffer one after another read
/// back in order, each payload once. `PacketBuffer::push` appends each
/// frame's bytes as they are, since they are valid UTF-8; after the frames
/// and the first `k` bytes of one more frame, the buffer can be split and
/// `next_packets` gives every complete payload, in order and as text, and
/// keeps those `k` bytes; a second call gives nothing and keeps them; once
/// the rest of that frame is pushed, the next call gives its payload and
/// leaves the buffer empty.
pub proof fn law_buffer_frames_in_order(marker: u8, ps: Seq<Seq<u8>>, last: Seq<u8>, k: int)
    requires
        marker < 128,
        forall|i: int| 0 <= i < ps.len() ==> ascii_bytes(#[trigger] ps[i]) && ps[i].len() < 4096,
        ascii_bytes(last),
        last.len() < 4096,
        0 <= k < last.len() + 3,
    ensures
        ({
            let f = client_frame(marker, last);
            let q = f.subrange(0, k);
            let rest = f.subrange(k, f.len() as int);
            let pushed = frames_of(marker, ps) + q;
            &&& forall|i: int| 0 <= i < ps.len() ==> valid_utf8(#[trigger] client_frame(marker, ps[i]))
                && decode_utf8(ps[i]) == ascii_text(ps[i])
            &&& valid_utf8(q) && valid_utf8(rest)
            &&& frames_sliceable(pushed)
            &&& frame_split(pushed) == (ps, q, None::<CodecError>)
            &&& frames_sliceable(q)
            &&& frame_split(q) == (Seq::<Seq<u8>>::empty(), q, None::<CodecError>)
            &&& frames_sliceable(q + rest)
            &&& frame_split(q + rest) == (seq![last], Seq::<u8>::empty(), None::<CodecError>)
            &&& decode_utf8(last) == ascii_text(last)
        }),
{
    let f = client_frame(marker, last);
    let q = f.subrange(0, k);
    let rest = f.subrange(k, f.len() as int);
    law_frames_read_back_in_order(marker, ps, last, k);
    lemma_frame_ascii(marker, last);
    lemma_sub_ascii(f, 0, k);
    lemma_sub_ascii(f, k, f.len() as int);
    lemma_ascii_utf8(q);
    lemma_ascii_utf8(rest);
    lemma_ascii_utf8(last);
    assert forall|i: int| 0 <= i < ps.len() implies valid_utf8(#[trigger] client_frame(marker, ps[i]))
        && decode_utf8(ps[i]) == ascii_text(ps[i]) by {
        lemma_frame_ascii(marker, ps[i]);
        lemma_ascii_utf8(client_frame(marker, ps[i]));
        lemma_ascii_utf8(ps[i]);
    }
    lemma_frames_ascii(marker, ps);
    lemma_concat_ascii(frames_of(marker, ps), q);
    lemma_ascii_sliceable(frames_of(marker, ps) + q);
    lemma_ascii_sliceable(q);
    assert(q + rest =~= f);
    lemma_ascii_sliceable(f);
}

} // verus!
