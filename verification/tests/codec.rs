use holograph_server::codec::{decode_b64, decode_vl64, encode_vl64, legacy_frame, CodecError, PacketBuffer};

#[test]
fn decodes_b64_lengths() {
    assert_eq!(decode_b64("@A").unwrap(), 1);
    assert_eq!(decode_b64("@B").unwrap(), 2);
}

#[test]
fn encodes_vl64() {
    assert_eq!(encode_vl64(1), "I");
    assert_eq!(decode_vl64("I").unwrap(), (1, 1));
}

#[test]
fn buffers_packets() {
    let mut buffer = PacketBuffer::default();
    buffer.push(b"A@BCD");
    let packets = buffer.next_packets().unwrap();
    assert_eq!(packets, vec!["CD".to_string()]);
}

#[test]
fn buffers_multiple_packets() {
    let mut buffer = PacketBuffer::default();
    buffer.push(b"A@BCDA@BCN");
    let packets = buffer.next_packets().unwrap();
    assert_eq!(packets, vec!["CD".to_string(), "CN".to_string()]);
}

#[test]
fn b64_rejects_bytes_below_the_alphabet() {
    assert_eq!(decode_b64("@!"), Err(CodecError::InvalidB64Byte(b'!')));
    assert_eq!(decode_b64(""), Ok(0));
    assert_eq!(decode_b64("AA"), Ok(65));
}

#[test]
fn vl64_round_trips_across_signs_and_sizes() {
    for v in [0, 1, -1, 3, 4, 63, 64, 255, -256, 100_000, -2_000_000, i32::MAX, i32::MIN + 1] {
        let text = encode_vl64(v);
        assert_eq!(decode_vl64(&text).unwrap(), (v, text.len()));
    }
}

#[test]
fn vl64_exact_encodings() {
    assert_eq!(encode_vl64(0), "H");
    assert_eq!(encode_vl64(-1), "M");
    assert_eq!(encode_vl64(4), "PA");
}

#[test]
fn vl64_errors() {
    assert_eq!(decode_vl64(""), Err(CodecError::EmptyVl64));
    assert_eq!(decode_vl64("@"), Err(CodecError::InvalidVl64ByteCount));
    assert_eq!(decode_vl64("P"), Err(CodecError::InvalidVl64ByteCount));
}

#[test]
fn legacy_frame_appends_terminator() {
    assert_eq!(legacy_frame("@@"), vec![b'@', b'@', 1]);
}

#[test]
fn buffer_keeps_incomplete_frames() {
    let mut buffer = PacketBuffer::default();
    buffer.push(b"A@CCD");
    assert!(buffer.next_packets().unwrap().is_empty());
    buffer.push(b"N");
    assert_eq!(buffer.next_packets().unwrap(), vec!["CDN".to_string()]);
}

#[test]
fn buffer_reports_bad_length_bytes() {
    let mut buffer = PacketBuffer::default();
    buffer.push(b"A!!CD");
    assert_eq!(buffer.next_packets(), Err(CodecError::InvalidB64Byte(b'!')));
}

#[test]
fn vl64_decoding_ignores_what_follows() {
    for v in [0, 1, -1, 3, 64, -200, 1_000_000, i32::MAX, i32::MIN + 1] {
        let encoded = holograph_server::codec::encode_vl64(v);
        let text = format!("{}HIJ\u{2}", encoded);
        assert_eq!(holograph_server::codec::decode_vl64(&text).unwrap(), (v, encoded.len()));
    }
}

fn client_frame(payload: &str) -> String {
    let n = payload.len();
    format!("A{}{}{}", (64 + n / 64) as u8 as char, (64 + n % 64) as u8 as char, payload)
}

#[test]
fn frames_pushed_apart_read_back_in_order() {
    let mut buffer = PacketBuffer::default();
    buffer.push(client_frame("abc").as_bytes());
    buffer.push(client_frame("xy").as_bytes());
    let last = client_frame("hello");
    buffer.push(last[..4].as_bytes());
    assert_eq!(buffer.next_packets().unwrap(), vec!["abc".to_string(), "xy".to_string()]);
    assert_eq!(buffer.next_packets().unwrap(), Vec::<String>::new());
    buffer.push(last[4..].as_bytes());
    assert_eq!(buffer.next_packets().unwrap(), vec!["hello".to_string()]);
    assert_eq!(buffer.next_packets().unwrap(), Vec::<String>::new());
}
