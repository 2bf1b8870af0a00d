use ch9329::{decode, encode, sum, Error};

#[test]
fn test_encode() {
    let data = [0x00, 0x00, 0x04, 0x00, 0x00, 0x00, 0x00, 0x00];
    let packet = encode(0x00, 0x02, &data);
    assert_eq!(
        packet,
        [0x57, 0xAB, 0x00, 0x02, 0x08, 0x00, 0x00, 0x04, 0x00, 0x00, 0x00, 0x00, 0x00, 0x10],
    );
}

#[test]
fn test_decode() {
    let buf = [
        0x57, 0xAB, 0x00, 0x02, 0x08, 0x00, 0x00, 0x04, 0x00, 0x00, 0x00, 0x00, 0x00, 0x10,
    ];
    assert_eq!(decode(&buf[..3]), Err(Error::Incomplete(6)));
    assert_eq!(decode(&buf[..6]), Err(Error::Incomplete(14)));
    assert_eq!(
        decode(&buf),
        Ok((
            0x00,
            0x02,
            vec![0x00, 0x00, 0x04, 0x00, 0x00, 0x00, 0x00, 0x00]
        ))
    );
}

#[test]
fn round_trip_various_payloads() {
    let payloads: Vec<Vec<u8>> = vec![
        vec![],
        vec![0x01],
        vec![0xFF; 64],
        (0..=63).collect(),
    ];
    for payload in payloads {
        let frame = encode(0x5A, 0x0A, &payload);
        assert_eq!(decode(&frame), Ok((0x5A, 0x0A, payload)));
    }
}

#[test]
fn short_buffers_need_six_bytes() {
    let frame = encode(0x00, 0x01, &[]);
    for n in 0..6 {
        assert_eq!(decode(&frame[..n]), Err(Error::Incomplete(6)));
    }
}

#[test]
fn withheld_checksum_reports_full_length() {
    for len in [0usize, 1, 8, 64] {
        let payload = vec![0x11; len];
        let frame = encode(0x00, 0x02, &payload);
        let total = 5 + len + 1;
        assert_eq!(frame.len(), total);
        assert_eq!(decode(&frame[..total - 1]), Err(Error::Incomplete(total)));
    }
}

#[test]
fn flipped_byte_fails_head_or_sum() {
    let frame = encode(0x00, 0x02, &[0x00, 0x00, 0x04, 0x00, 0x00, 0x00, 0x00, 0x00]);
    for i in 0..frame.len() {
        if i == 4 {
            // A corrupted length byte shifts the framing instead; the
            // corruption lemma and this test leave it aside.
            continue;
        }
        let mut bad = frame.clone();
        bad[i] ^= 0xFF;
        let expected = if i < 2 {
            Error::InvalidHead
        } else {
            Error::InvalidSum
        };
        assert_eq!(decode(&bad), Err(expected), "byte {i}");
    }
}

#[test]
fn checksum_is_wrapping_sum() {
    assert_eq!(sum(&[]), 0x00);
    assert_eq!(sum(&[0x57, 0xAB, 0x00, 0x01, 0x00]), 0x03);
    assert_eq!(sum(&[0xFF, 0xFF, 0x02]), 0x00);
    // The example frame: bytes before the checksum add up to 0x10 after
    // wraparound.
    assert_eq!(
        sum(&[0x57, 0xAB, 0x00, 0x02, 0x08, 0x00, 0x00, 0x04, 0x00, 0x00, 0x00, 0x00, 0x00]),
        0x10
    );
}

#[test]
fn bad_header_is_fatal() {
    // Even a full-length buffer with a wrong magic fails with InvalidHead.
    let mut frame = encode(0x00, 0x01, &[]);
    frame[0] = 0x58;
    assert_eq!(decode(&frame), Err(Error::InvalidHead));
    let other = [0xAA, 0x55, 0x00, 0x01, 0x00, 0x00];
    assert_eq!(decode(&other), Err(Error::InvalidHead));
}

#[test]
fn trailing_bytes_are_ignored() {
    let mut buf = encode(0x01, 0x81, &[0x31, 0, 0, 0, 0, 0, 0, 0]);
    buf.extend_from_slice(&[0xDE, 0xAD]);
    assert_eq!(
        decode(&buf),
        Ok((0x01, 0x81, vec![0x31, 0, 0, 0, 0, 0, 0, 0]))
    );
}
