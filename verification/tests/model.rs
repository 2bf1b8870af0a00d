use ch9329::{
    Command, CommandExecutionStatus, Error, KeyCode, KeyModifiers, ParaCfg, Response,
    UsbStringType,
};

#[test]
fn command_opcodes() {
    assert_eq!(Command::GetInfo.cmd(), 0x01);
    assert_eq!(
        Command::SendKbGeneralData {
            modifiers: KeyModifiers::empty(),
            codes: vec![],
        }
        .cmd(),
        0x02
    );
    assert_eq!(Command::SendMyHidData { data: vec![] }.cmd(), 0x06);
    assert_eq!(Command::GetParaCfg.cmd(), 0x08);
    assert_eq!(
        Command::GetUsbString {
            type_: UsbStringType::Serial,
        }
        .cmd(),
        0x0A
    );
}

#[test]
fn send_keys_payload_zero_codes() {
    let cmd = Command::SendKbGeneralData {
        modifiers: KeyModifiers::empty(),
        codes: vec![],
    };
    assert_eq!(cmd.data(), [0, 0, 0, 0, 0, 0, 0, 0]);
}

#[test]
fn send_keys_payload_one_code() {
    let (shift, code) = KeyCode::from_ascii(b'a').unwrap();
    assert!(!shift);
    let cmd = Command::SendKbGeneralData {
        modifiers: KeyModifiers::left_shift(),
        codes: vec![code],
    };
    assert_eq!(cmd.data(), [0x02, 0x00, 0x04, 0, 0, 0, 0, 0]);
}

#[test]
fn send_keys_payload_packs_first_six_codes() {
    let codes: Vec<KeyCode> = [b'a', b'b', b'c', b'd', b'e', b'f', b'g']
        .iter()
        .map(|&b| KeyCode::from_ascii(b).unwrap().1)
        .collect();
    let cmd = Command::SendKbGeneralData {
        modifiers: KeyModifiers::empty(),
        codes,
    };
    // The seventh code is ignored; the six slots hold codes for a..f.
    assert_eq!(cmd.data(), [0x00, 0x00, 0x04, 0x05, 0x06, 0x07, 0x08, 0x09]);
}

#[test]
fn raw_hid_payload_is_verbatim() {
    let cmd = Command::SendMyHidData {
        data: vec![0xDE, 0xAD, 0xBE, 0xEF],
    };
    assert_eq!(cmd.data(), [0xDE, 0xAD, 0xBE, 0xEF]);
}

#[test]
fn query_payloads() {
    assert!(Command::GetInfo.data().is_empty());
    assert!(Command::GetParaCfg.data().is_empty());
    assert_eq!(
        Command::GetUsbString {
            type_: UsbStringType::Vendor,
        }
        .data(),
        [0x00]
    );
    assert_eq!(
        Command::GetUsbString {
            type_: UsbStringType::Product,
        }
        .data(),
        [0x01]
    );
    assert_eq!(
        Command::GetUsbString {
            type_: UsbStringType::Serial,
        }
        .data(),
        [0x02]
    );
}

#[test]
fn modifier_bits() {
    assert_eq!(KeyModifiers::empty().bits(), 0x00);
    assert_eq!(KeyModifiers::left_ctrl().bits(), 0x01);
    assert_eq!(KeyModifiers::left_shift().bits(), 0x02);
    assert_eq!(KeyModifiers::left_alt().bits(), 0x04);
    assert_eq!(KeyModifiers::left_windows().bits(), 0x08);
    assert_eq!(KeyModifiers::right_ctrl().bits(), 0x10);
    assert_eq!(KeyModifiers::right_shift().bits(), 0x20);
    assert_eq!(KeyModifiers::right_alt().bits(), 0x40);
    assert_eq!(KeyModifiers::right_windows().bits(), 0x80);
    assert_eq!(
        KeyModifiers::left_shift()
            .union(KeyModifiers::right_alt())
            .bits(),
        0x42
    );
}

#[test]
fn letters_map_case_insensitively() {
    for lower in b'a'..=b'z' {
        let upper = lower - 0x20;
        let (shift_lower, code_lower) = KeyCode::from_ascii(lower).unwrap();
        let (shift_upper, code_upper) = KeyCode::from_ascii(upper).unwrap();
        assert!(!shift_lower);
        assert!(shift_upper);
        assert_eq!(code_lower, code_upper);
        assert_eq!(code_lower.code(), 0x04 + (lower - b'a'));
    }
}

#[test]
fn digits_and_punctuation_map() {
    for digit in b'1'..=b'9' {
        let (shift, code) = KeyCode::from_ascii(digit).unwrap();
        assert!(!shift);
        assert_eq!(code.code(), 0x1E + (digit - b'1'));
    }
    // Zero shares the key of the right parenthesis, shift differing.
    let (shift_zero, code_zero) = KeyCode::from_ascii(b'0').unwrap();
    let (shift_paren, code_paren) = KeyCode::from_ascii(b')').unwrap();
    assert!(!shift_zero && shift_paren);
    assert_eq!(code_zero, code_paren);
    assert_eq!(code_zero.code(), 0x27);
    // Every printable ASCII byte maps, space through tilde.
    for b in 0x20u8..=0x7E {
        assert!(KeyCode::from_ascii(b).is_some(), "byte {b:#04x}");
    }
    let (shift_space, code_space) = KeyCode::from_ascii(b' ').unwrap();
    assert!(!shift_space);
    assert_eq!(code_space.code(), 0x2C);
    // Shifted punctuation shares the key of its unshifted partner.
    let pairs = [
        (b';', b':'),
        (b',', b'<'),
        (b'.', b'>'),
        (b'/', b'?'),
        (b'2', b'@'),
    ];
    for (plain, shifted) in pairs {
        let (shift_plain, code_plain) = KeyCode::from_ascii(plain).unwrap();
        let (shift_shifted, code_shifted) = KeyCode::from_ascii(shifted).unwrap();
        assert!(!shift_plain && shift_shifted, "pair {plain:#04x}");
        assert_eq!(code_plain, code_shifted, "pair {plain:#04x}");
    }
    assert_eq!(KeyCode::from_ascii(b';').unwrap().1.code(), 0x33);
    assert_eq!(KeyCode::from_ascii(b'@').unwrap().1.code(), 0x1F);
}

#[test]
fn uncovered_bytes_do_not_map() {
    for b in [0x00u8, 0x0A, 0x1F, 0x7F, 0x80, 0xFF] {
        assert!(KeyCode::from_ascii(b).is_none(), "byte {b:#04x}");
    }
}

#[test]
fn named_keys() {
    assert_eq!(KeyCode::return_key().code(), 0x28);
    assert_eq!(KeyCode::escape_key().code(), 0x29);
    assert_eq!(KeyCode::delete_key().code(), 0x2A);
    assert_eq!(KeyCode::tab_key().code(), 0x2B);
}

#[test]
fn decode_info_reply() {
    let reply = Response::decode(0x81, &[0x31, 0, 0, 0, 0, 0, 0, 0]);
    assert_eq!(reply, Ok(Response::GetInfo { version: '1' }));
    assert_eq!(Response::decode(0x81, &[0x31]), Err(Error::InvalidData));
    assert_eq!(
        Response::decode(0x81, &[0x31, 0, 0, 0, 0, 0, 0, 0, 0]),
        Err(Error::InvalidData)
    );
}

#[test]
fn decode_key_send_statuses() {
    let cases = [
        (0x00, CommandExecutionStatus::Success),
        (0xE1, CommandExecutionStatus::ErrTimeout),
        (0xE2, CommandExecutionStatus::ErrHead),
        (0xE3, CommandExecutionStatus::ErrCmd),
        (0xE4, CommandExecutionStatus::ErrSum),
        (0xE5, CommandExecutionStatus::ErrPara),
        (0xE6, CommandExecutionStatus::ErrOperate),
    ];
    for (byte, status) in cases {
        assert_eq!(CommandExecutionStatus::from_u8(byte), Some(status));
        assert_eq!(
            Response::decode(0x82, &[byte]),
            Ok(Response::SendKbGeneralData(status))
        );
    }
    // A status byte outside the known set is invalid data.
    assert_eq!(CommandExecutionStatus::from_u8(0x42), None);
    assert_eq!(Response::decode(0x82, &[0x42]), Err(Error::InvalidData));
    // So is a wrong payload length.
    assert_eq!(Response::decode(0x82, &[]), Err(Error::InvalidData));
    assert_eq!(Response::decode(0x82, &[0, 0]), Err(Error::InvalidData));
}

#[test]
fn decode_para_cfg_reply() {
    let mut payload = vec![0u8; 50];
    payload[0] = 0x01; // operation mode
    payload[1] = 0x02; // serial communication mode
    payload[2] = 0x5A; // address
    payload[3..7].copy_from_slice(&[0x00, 0x00, 0x25, 0x80]); // 9600 baud
    payload[7..11].copy_from_slice(&[0xA1, 0xA2, 0xA3, 0xA4]);
    payload[11..13].copy_from_slice(&[0x1A, 0x86]); // VID
    payload[13..15].copy_from_slice(&[0x75, 0x23]); // PID
    payload[49] = 0xEE;
    let reply = Response::decode(0x88, &payload).unwrap();
    let mut reserved_b = vec![0u8; 35];
    reserved_b[34] = 0xEE;
    assert_eq!(
        reply,
        Response::GetParaCfg(ParaCfg {
            operation_mode: 0x01,
            serial_communication_mode: 0x02,
            addr: 0x5A,
            baud_rate: 9600,
            reserved_a: vec![0xA1, 0xA2, 0xA3, 0xA4],
            vid: 0x1A86,
            pid: 0x7523,
            reserved_b,
        })
    );
}

#[test]
fn para_cfg_reply_length_is_strict() {
    for len in [0usize, 1, 49, 51, 64] {
        let payload = vec![0u8; len];
        assert_eq!(Response::decode(0x88, &payload), Err(Error::InvalidData), "length {len}");
    }
}

#[test]
fn decode_descriptor_reply() {
    let reply = Response::decode(0x8A, &[0x00, 0x03, b'W', b'C', b'H']);
    assert_eq!(
        reply,
        Ok(Response::GetUsbString {
            type_: UsbStringType::Vendor,
            descriptor: "WCH".to_string(),
        })
    );
    // A multi-byte character decodes to text, not to raw bytes.
    let reply = Response::decode(0x8A, &[0x01, 0x02, 0xC3, 0xA9]);
    match reply {
        Ok(Response::GetUsbString { type_, descriptor }) => {
            assert_eq!(type_, UsbStringType::Product);
            assert_eq!(descriptor, "\u{e9}");
            assert_eq!(descriptor.chars().count(), 1);
        }
        other => panic!("unexpected: {other:?}"),
    }
    // An empty descriptor is fine.
    let reply = Response::decode(0x8A, &[0x02, 0x00]);
    assert_eq!(
        reply,
        Ok(Response::GetUsbString {
            type_: UsbStringType::Serial,
            descriptor: String::new(),
        })
    );
}

#[test]
fn descriptor_reply_validation() {
    // Declared length must match the remaining payload exactly.
    assert_eq!(
        Response::decode(0x8A, &[0x00, 0x04, b'W', b'C', b'H']),
        Err(Error::InvalidData)
    );
    assert_eq!(
        Response::decode(0x8A, &[0x00, 0x02, b'W', b'C', b'H']),
        Err(Error::InvalidData)
    );
    // Too short to even hold selector and length.
    assert_eq!(Response::decode(0x8A, &[]), Err(Error::InvalidData));
    assert_eq!(Response::decode(0x8A, &[0x00]), Err(Error::InvalidData));
    // Unknown selector byte.
    assert_eq!(
        Response::decode(0x8A, &[0x03, 0x01, b'x']),
        Err(Error::InvalidData)
    );
    // Bytes that are not valid UTF-8 surface the text-decoding failure,
    // with the length of the longest valid prefix.
    assert_eq!(
        Response::decode(0x8A, &[0x00, 0x01, 0xFF]),
        Err(Error::Utf8(0))
    );
    assert_eq!(
        Response::decode(0x8A, &[0x00, 0x03, b'W', 0xFF, b'H']),
        Err(Error::Utf8(1))
    );
}

#[test]
fn unknown_reply_opcode() {
    assert_eq!(Response::decode(0x55, &[]), Err(Error::InvalidCmd));
    assert_eq!(Response::decode(0x02, &[0x00]), Err(Error::InvalidCmd));
}
