use wgbind::{
    decode_key, decode_name, determine_length, encode_name, list_device_names, DeviceFlags,
    TerminatorScan, WgError, MAX_SCAN_LEN,
};

fn names(buf: &[u8]) -> Result<Option<Vec<String>>, WgError> {
    list_device_names(Some(buf))
}

#[test]
fn decodes_three_names_in_order() {
    let got = names(b"first\0second\0third\0\0").unwrap().unwrap();
    assert_eq!(got, vec!["first", "second", "third"]);
}

#[test]
fn null_buffer_means_no_devices() {
    assert_eq!(list_device_names(None), Ok(None));
}

#[test]
fn double_nul_buffer_means_no_devices() {
    assert_eq!(names(b"\0\0"), Ok(None));
    assert_eq!(names(b"\0"), Ok(None));
}

#[test]
fn invalid_utf8_fails_whole_decode() {
    assert_eq!(names(b"wg0\0w\xffg\0\0"), Err(WgError::Decode));
    assert_eq!(names(b"\xc3\0\0"), Err(WgError::Decode));
}

#[test]
fn invalid_bytes_after_terminator_are_not_read() {
    assert_eq!(names(b"wg0\0\0\xff"), Ok(Some(vec![String::from("wg0")])));
}

#[test]
fn multibyte_names_decode() {
    assert_eq!(names("wg\u{e9}\0\u{1f600}\0\0".as_bytes()), Ok(Some(vec![String::from("wg\u{e9}"), String::from("\u{1f600}")])));
}

#[test]
fn missing_terminator_is_unterminated() {
    assert_eq!(names(b"wg0\0wg1"), Err(WgError::Unterminated));
    assert_eq!(names(b""), Err(WgError::Unterminated));
}

#[test]
fn scanned_length_keeps_last_name_nul() {
    assert_eq!(determine_length(b"first\0second\0third\0\0"), Some(19));
    assert_eq!(determine_length(b"a\0\0"), Some(2));
    assert_eq!(determine_length(b"\0\0"), Some(0));
    assert_eq!(determine_length(b"ab"), None);
}

#[test]
fn scan_stops_at_terminator() {
    let buf = b"wg0\0wg1\0\0garbage";
    let mut scan = TerminatorScan::new();
    let mut read: Vec<u8> = Vec::new();
    for &b in buf.iter() {
        read.push(b);
        if scan.feed(b) {
            break;
        }
    }
    assert_eq!(read, b"wg0\0wg1\0\0".to_vec());
    assert!(scan.feed(b'x'));
    assert_eq!(names(&read), Ok(Some(vec![String::from("wg0"), String::from("wg1")])));
}

#[test]
fn scan_stops_at_bound() {
    let mut scan = TerminatorScan::new();
    let mut count: usize = 0;
    loop {
        count += 1;
        if scan.feed(b'a') {
            break;
        }
    }
    assert_eq!(count, MAX_SCAN_LEN);
}

#[test]
fn names_up_to_fifteen_bytes_round_trip() {
    let full = "abcdefghijklmno";
    for len in 0..=15 {
        let name = &full[..len];
        let field = encode_name(name).unwrap();
        assert_eq!(&field[..len], name.as_bytes());
        assert!(field[len..].iter().all(|&b| b == 0));
        assert_eq!(decode_name(&field), Ok(String::from(name)));
    }
}

#[test]
fn long_name_is_rejected() {
    assert_eq!(encode_name("abcdefghijklmnop"), Err(WgError::NameTooLong));
    assert_eq!(encode_name("wireguard-device-0"), Err(WgError::NameTooLong));
}

#[test]
fn name_with_nul_is_rejected() {
    assert_eq!(encode_name("wg\u{0}0"), Err(WgError::InvalidName));
}

#[test]
fn name_field_without_nul_fails() {
    assert_eq!(decode_name(b"abcdefghijklmnop"), Err(WgError::Decode));
}

#[test]
fn name_field_with_invalid_utf8_fails() {
    let mut field = [0u8; 16];
    field[..3].copy_from_slice(b"w\xffg");
    assert_eq!(decode_name(&field), Err(WgError::Decode));
}

#[test]
fn multibyte_name_round_trips() {
    let field = encode_name("wg-\u{e9}t\u{e9}").unwrap();
    assert_eq!(decode_name(&field), Ok(String::from("wg-\u{e9}t\u{e9}")));
    assert_eq!(field[3], 0xc3);
}

#[test]
fn key_field_cases() {
    let mut key = [0u8; 32];
    assert_eq!(decode_key(&key), Ok(None));
    key[..5].copy_from_slice(b"k3y+/");
    assert_eq!(decode_key(&key), Ok(Some(String::from("k3y+/"))));
    let full = [b'A'; 32];
    assert_eq!(decode_key(&full), Ok(None));
    let mut ctl = [0u8; 32];
    ctl[0] = b'a';
    ctl[1] = 0x07;
    assert_eq!(decode_key(&ctl), Err(WgError::Decode));
    let mut high = [0u8; 32];
    high[0] = 0xc3;
    high[1] = 0xa9;
    assert_eq!(decode_key(&high), Err(WgError::Decode));
}

#[test]
fn flags_combine() {
    let f = DeviceFlags::empty().with(wgbind::record::WGDEVICE_HAS_FWMARK).with(wgbind::record::WGDEVICE_REPLACE_PEERS);
    assert_eq!(f.bits, 17);
    assert!(f.contains(wgbind::record::WGDEVICE_HAS_FWMARK));
    assert!(f.contains(17));
    assert!(!f.contains(wgbind::record::WGDEVICE_HAS_PRIVATE_KEY));
    assert!(DeviceFlags::empty().contains(0));
}

#[test]
fn terminator_beyond_bound_is_unterminated() {
    let mut buf = vec![b'a'; MAX_SCAN_LEN];
    buf.extend_from_slice(b"\0\0");
    assert_eq!(determine_length(&buf), None);
    assert_eq!(names(&buf), Err(WgError::Unterminated));
    let mut near = vec![b'a'; MAX_SCAN_LEN - 2];
    near.extend_from_slice(b"\0\0");
    assert_eq!(determine_length(&near), Some(MAX_SCAN_LEN - 1));
    assert_eq!(names(&near).unwrap().unwrap().len(), 1);
}

#[test]
fn names_join_back_to_region() {
    let buf = "wg0\0d\u{e9}v\0x\0\0tail".as_bytes();
    let got = names(buf).unwrap().unwrap();
    let mut joined: Vec<u8> = Vec::new();
    for n in &got {
        assert!(!n.is_empty());
        joined.extend_from_slice(n.as_bytes());
        joined.push(0);
    }
    let n = determine_length(buf).unwrap();
    assert_eq!(joined, buf[..n].to_vec());
}
