use vive_hid::vive::{
    devsn_request, ipd_request, read_text_reply, set_resolution_reports, vive_config_json,
};
use vive_hid::{Error, Resolution, ViveTransfer};

const VIVE_JSON: &str = "{\"device\":{\"eye_target_height_in_pixels\":2448,\"eye_target_width_in_pixels\":2448},\"direct_mode_edid_pid\":834,\"direct_mode_edid_vid\":53838,\"seconds_from_photons_to_vblank\":0.0,\"seconds_from_vsync_to_photons\":0.011,\"inhouse_lens_correction\":{\"k\":[1,2,3]}}";

fn vive_reply(prefix: [u8; 2], payload: &[u8]) -> [u8; 64] {
    let mut report = [0x3cu8; 64];
    report[0] = 0x01;
    report[1] = prefix[0];
    report[2] = prefix[1];
    report[3] = payload.len() as u8;
    report[4..4 + payload.len()].copy_from_slice(payload);
    report
}

fn length_reply(total: u32) -> [u8; 64] {
    vive_reply([0xea, 0xb1], &total.to_le_bytes())
}

fn chunk_reply_at(chunk: &[u8]) -> [u8; 64] {
    vive_reply([0xeb, 0xb1], chunk)
}

fn chunk_request(offset: u32) -> [u8; 64] {
    let mut report = [0u8; 64];
    report[0] = 0x01;
    report[1] = 0xeb;
    report[2] = 0xb1;
    report[3] = 0x04;
    report[4..8].copy_from_slice(&offset.to_le_bytes());
    report
}

fn blob_of(len: usize) -> Vec<u8> {
    (0..len).map(|i| (i * 31 + i / 251) as u8).collect()
}

/// Plays the part of a device that holds `blob` and answers each chunk query
/// with up to `size` bytes from the offset asked for.
fn fetch(blob: &[u8], size: usize) -> Result<Vec<u8>, Error> {
    let mut transfer = ViveTransfer::new();
    let mut length_asked = false;
    while let Some(request) = transfer.next_request() {
        let reply = if !length_asked {
            length_asked = true;
            let mut expected = [0u8; 64];
            expected[0] = 0x01;
            expected[1] = 0xea;
            expected[2] = 0xb1;
            assert_eq!(request, expected);
            length_reply(blob.len() as u32)
        } else {
            assert_eq!(&request[..4], &[0x01, 0xeb, 0xb1, 0x04]);
            assert!(request[8..].iter().all(|&b| b == 0));
            let offset = u32::from_le_bytes([request[4], request[5], request[6], request[7]]);
            assert_eq!(offset as usize, transfer.data().len());
            let from = offset as usize;
            let to = (from + size).min(blob.len());
            chunk_reply_at(&blob[from..to])
        };
        assert!(transfer.accepts(&reply));
        transfer.on_reply(&reply)?;
    }
    assert!(transfer.is_finished());
    Ok(transfer.into_data())
}

#[test]
fn the_first_request_asks_for_the_length() {
    let transfer = ViveTransfer::new();
    let mut expected = [0u8; 64];
    expected[..3].copy_from_slice(&[0x01, 0xea, 0xb1]);
    assert_eq!(transfer.next_request(), Some(expected));
    assert!(!transfer.is_finished());
    assert!(transfer.data().is_empty());
}

#[test]
fn chunk_requests_carry_the_offset_reached() {
    let mut transfer = ViveTransfer::new();
    transfer.on_reply(&length_reply(0x0001_0203)).unwrap();
    assert_eq!(transfer.next_request(), Some(chunk_request(0)));
    transfer.on_reply(&chunk_reply_at(&[7u8; 60])).unwrap();
    assert_eq!(transfer.next_request(), Some(chunk_request(60)));
    for _ in 0..4 {
        transfer.on_reply(&chunk_reply_at(&[8u8; 60])).unwrap();
    }
    assert_eq!(transfer.next_request(), Some(chunk_request(300)));
    assert_eq!(chunk_request(300)[4..8], [0x2c, 0x01, 0x00, 0x00]);
}

#[test]
fn a_blob_is_put_together_from_its_chunks() {
    for len in [1usize, 59, 60, 61, 128, 1000, 4097] {
        let blob = blob_of(len);
        for size in [1usize, 13, 59, 60] {
            assert_eq!(fetch(&blob, size).unwrap(), blob, "len {} size {}", len, size);
        }
    }
}

#[test]
fn a_declared_length_of_zero_needs_no_chunk() {
    let mut transfer = ViveTransfer::new();
    transfer.on_reply(&length_reply(0)).unwrap();
    assert!(transfer.is_finished());
    assert_eq!(transfer.next_request(), None);
    assert_eq!(transfer.into_data(), Vec::<u8>::new());
}

#[test]
fn chunks_of_every_length_up_to_sixty_two_are_joined() {
    let blob = blob_of(62 + 1 + 62 + 17);
    let mut transfer = ViveTransfer::new();
    transfer.on_reply(&length_reply(blob.len() as u32)).unwrap();
    let mut at = 0;
    for len in [62usize, 1, 0, 62, 17] {
        assert!(!transfer.is_finished());
        transfer.on_chunk(&blob[at..at + len]).unwrap();
        at += len;
        assert_eq!(transfer.data().len(), at);
    }
    assert!(transfer.is_finished());
    assert_eq!(transfer.into_data(), blob);
}

#[test]
fn an_empty_chunk_changes_nothing() {
    let mut transfer = ViveTransfer::new();
    transfer.on_reply(&length_reply(3)).unwrap();
    transfer.on_reply(&chunk_reply_at(&[1])).unwrap();
    transfer.on_reply(&chunk_reply_at(&[])).unwrap();
    assert_eq!(transfer.data(), &vec![1]);
    assert_eq!(transfer.next_request(), Some(chunk_request(1)));
}

#[test]
fn a_chunk_past_the_declared_length_is_a_size_mismatch() {
    let mut transfer = ViveTransfer::new();
    transfer.on_reply(&length_reply(5)).unwrap();
    transfer.on_reply(&chunk_reply_at(&[1, 2, 3])).unwrap();
    let r = transfer.on_reply(&chunk_reply_at(&[4, 5, 6]));
    assert!(matches!(r, Err(Error::ProtocolError("config size mismatch"))));
    assert_eq!(transfer.data(), &vec![1, 2, 3]);
    assert!(!transfer.is_finished());
}

#[test]
fn a_first_chunk_past_the_declared_length_is_a_size_mismatch() {
    let mut transfer = ViveTransfer::new();
    transfer.on_reply(&length_reply(10)).unwrap();
    let r = transfer.on_chunk(&[0u8; 62]);
    assert!(matches!(r, Err(Error::ProtocolError("config size mismatch"))));
    let r = transfer.on_chunk(&[0u8; 11]);
    assert!(matches!(r, Err(Error::ProtocolError("config size mismatch"))));
    assert!(transfer.on_chunk(&[0u8; 10]).is_ok());
    assert!(transfer.is_finished());
}

#[test]
fn a_device_that_sends_too_much_is_found_out() {
    let blob = blob_of(100);
    let mut transfer = ViveTransfer::new();
    transfer.on_reply(&length_reply(90)).unwrap();
    transfer.on_reply(&chunk_reply_at(&blob[..60])).unwrap();
    let r = transfer.on_reply(&chunk_reply_at(&blob[60..100]));
    assert!(matches!(r, Err(Error::ProtocolError("config size mismatch"))));
}

#[test]
fn the_length_must_come_in_four_bytes() {
    for payload in [&[][..], &[1, 0, 0][..], &[1, 0, 0, 0, 0][..]] {
        let mut transfer = ViveTransfer::new();
        let r = transfer.on_reply(&vive_reply([0xea, 0xb1], payload));
        assert!(matches!(r, Err(Error::ProtocolError("config length has 4 bytes"))));
        let mut expected = [0u8; 64];
        expected[..3].copy_from_slice(&[0x01, 0xea, 0xb1]);
        assert_eq!(transfer.next_request(), Some(expected));
    }
}

#[test]
fn the_length_is_read_low_byte_first() {
    let mut transfer = ViveTransfer::new();
    transfer.on_reply(&vive_reply([0xea, 0xb1], &[0x02, 0x01, 0x00, 0x00])).unwrap();
    let chunk = [9u8; 60];
    for _ in 0..4 {
        transfer.on_reply(&chunk_reply_at(&chunk)).unwrap();
        assert!(!transfer.is_finished());
    }
    transfer.on_reply(&chunk_reply_at(&chunk[..18])).unwrap();
    assert!(transfer.is_finished());
    assert_eq!(transfer.data().len(), 0x0102);
}

#[test]
fn replies_that_break_the_framing_are_refused() {
    let mut transfer = ViveTransfer::new();
    let mut reply = length_reply(8);
    reply[0] = 0x02;
    assert!(matches!(transfer.on_reply(&reply), Err(Error::ProtocolError("wrong report id"))));
    let reply = vive_reply([0xeb, 0xb1], &[8, 0, 0, 0]);
    assert!(matches!(transfer.on_reply(&reply), Err(Error::ProtocolError("wrong prefix"))));
    let mut reply = length_reply(8);
    reply[3] = 63;
    assert!(matches!(transfer.on_reply(&reply), Err(Error::ProtocolError("wrong size"))));
    transfer.on_reply(&length_reply(8)).unwrap();
    let reply = vive_reply([0xea, 0xb1], &[1, 2]);
    assert!(matches!(transfer.on_reply(&reply), Err(Error::ProtocolError("wrong prefix"))));
    let mut reply = chunk_reply_at(&[1, 2]);
    reply[0] = 0;
    assert!(matches!(transfer.on_reply(&reply), Err(Error::ProtocolError("wrong report id"))));
    let mut reply = chunk_reply_at(&[1, 2]);
    reply[3] = 200;
    assert!(matches!(transfer.on_reply(&reply), Err(Error::ProtocolError("wrong size"))));
    assert!(transfer.data().is_empty());
}

#[test]
fn a_payload_that_leaves_the_report_is_not_accepted() {
    let mut transfer = ViveTransfer::new();
    let mut reply = length_reply(100);
    reply[3] = 61;
    assert!(!transfer.accepts(&reply));
    reply[3] = 60;
    assert!(transfer.accepts(&reply));
    transfer.on_reply(&length_reply(100)).unwrap();
    let mut reply = chunk_reply_at(&[0u8; 60]);
    assert!(transfer.accepts(&reply));
    reply[3] = 62;
    assert!(!transfer.accepts(&reply));
    reply[3] = 63;
    assert!(transfer.accepts(&reply));
    reply[0] = 9;
    reply[3] = 61;
    assert!(transfer.accepts(&reply));
}

#[test]
fn a_finished_transfer_ignores_further_replies() {
    let mut transfer = ViveTransfer::new();
    transfer.on_reply(&length_reply(2)).unwrap();
    transfer.on_reply(&chunk_reply_at(&[1, 2])).unwrap();
    assert!(transfer.accepts(&[0xffu8; 64]));
    transfer.on_reply(&[0xffu8; 64]).unwrap();
    transfer.on_chunk(&[3]).unwrap();
    assert_eq!(transfer.into_data(), vec![1, 2]);
}

#[test]
fn a_chunk_before_the_length_is_not_taken() {
    let mut transfer = ViveTransfer::new();
    transfer.on_chunk(&[1, 2, 3]).unwrap();
    assert!(transfer.data().is_empty());
    assert!(!transfer.is_finished());
}

#[test]
fn the_config_text_follows_a_header_of_128_bytes() {
    let mut blob = vec![0xffu8; 128];
    blob.extend_from_slice(VIVE_JSON.as_bytes());
    assert_eq!(vive_config_json(&blob).unwrap(), VIVE_JSON);
}

#[test]
fn the_header_is_not_looked_at() {
    for fill in [0x00u8, 0x7b, 0x80, 0xff] {
        let mut blob = vec![fill; 128];
        blob.extend_from_slice(b"{}");
        assert_eq!(vive_config_json(&blob).unwrap(), "{}");
    }
}

#[test]
fn a_config_of_header_only_has_empty_text() {
    assert_eq!(vive_config_json(&[0xffu8; 128]).unwrap(), "");
}

#[test]
fn a_config_that_is_not_utf8_is_a_protocol_error() {
    let mut blob = vec![b' '; 128];
    blob.extend_from_slice(&[b'{', 0xc3, 0x28, b'}']);
    let r = vive_config_json(&blob);
    assert!(matches!(r, Err(Error::ProtocolError("config is not utf-8"))));
    let mut blob = vec![b' '; 128];
    blob.extend_from_slice(&[0xe2, 0x82]);
    let r = vive_config_json(&blob);
    assert!(matches!(r, Err(Error::ProtocolError("config is not utf-8"))));
}

#[test]
fn a_fetched_config_decodes_to_its_json() {
    let mut blob = blob_of(128);
    blob.extend_from_slice(VIVE_JSON.as_bytes());
    let data = fetch(&blob, 60).unwrap();
    let text = vive_config_json(&data).unwrap();
    let value: serde_json::Value = serde_json::from_str(&text).unwrap();
    let expected: serde_json::Value = serde_json::from_str(VIVE_JSON).unwrap();
    assert_eq!(value, expected);
}

#[test]
fn the_serial_number_query() {
    let mut expected = [0u8; 64];
    expected[0] = 0x02;
    expected[1..12].copy_from_slice(b"mfg-r-devsn");
    assert_eq!(devsn_request(), expected);
}

#[test]
fn the_lens_distance_query() {
    let mut expected = [0u8; 64];
    expected[0] = 0x02;
    expected[1..13].copy_from_slice(b"mfg-r-ipdadc");
    assert_eq!(ipd_request(), expected);
}

#[test]
fn a_text_reply_is_read_as_a_string() {
    let mut report = [0u8; 64];
    report[0] = 0x02;
    report[1] = 12;
    report[2..14].copy_from_slice(b"FA1234567890");
    report[14] = b'!';
    assert_eq!(read_text_reply(&report).unwrap(), "FA1234567890");
    report[1] = 0;
    assert_eq!(read_text_reply(&report).unwrap(), "");
    let mut full = [b'x'; 64];
    full[0] = 0x02;
    full[1] = 62;
    assert_eq!(read_text_reply(&full).unwrap(), "x".repeat(62));
}

#[test]
fn a_text_reply_may_hold_any_utf8() {
    let text = "\u{e4}\u{20ac}\u{1f600}";
    let mut report = [0u8; 64];
    report[0] = 0x02;
    report[1] = text.len() as u8;
    report[2..2 + text.len()].copy_from_slice(text.as_bytes());
    assert_eq!(read_text_reply(&report).unwrap(), text);
}

#[test]
fn a_text_reply_that_breaks_the_rules_is_refused() {
    let mut report = [0u8; 64];
    report[0] = 0x01;
    report[1] = 1;
    report[2] = b'a';
    assert!(matches!(read_text_reply(&report), Err(Error::ProtocolError("wrong report id"))));
    report[0] = 0x02;
    report[1] = 63;
    assert!(matches!(read_text_reply(&report), Err(Error::ProtocolError("wrong size"))));
    report[1] = 2;
    report[2] = 0xc3;
    report[3] = 0x28;
    assert!(matches!(
        read_text_reply(&report),
        Err(Error::ProtocolError("devsn is not a string"))
    ));
}

#[test]
fn the_mode_is_set_by_two_commands() {
    let modes = [
        Resolution::R2448x1224f90,
        Resolution::R2448x1224f120,
        Resolution::R3264x1632f90,
        Resolution::R3680x1836f90,
        Resolution::R4896x2448f90,
        Resolution::R4896x2448f120,
    ];
    for (index, mode) in modes.iter().enumerate() {
        let (first, second) = set_resolution_reports(*mode);
        let mut wireless = [0u8; 64];
        wireless[..4].copy_from_slice(&[0x04, 0x70, 0x29, 10]);
        wireless[4..14].copy_from_slice(b"wireless,0");
        assert_eq!(first, wireless);
        let text = format!("dtd,{}", index);
        let mut dtd = [0u8; 64];
        dtd[..4].copy_from_slice(&[0x04, 0x70, 0x29, 5]);
        dtd[4..9].copy_from_slice(text.as_bytes());
        assert_eq!(second, dtd);
    }
}
