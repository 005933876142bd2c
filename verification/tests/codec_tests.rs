use rgbmon::color::RGBColor;
use rgbmon::command::build_color_payload;
use rgbmon::controller::ControllerData;
use rgbmon::error::ProtocolError;
use rgbmon::wire::{decode_header, encode_request, expects_response, parse_string};
use rgbmon::wire::{
    REQ_REQUEST_CONTROLLER_COUNT, REQ_REQUEST_CONTROLLER_DATA, REQ_REQUEST_PROTOCOL_VERSION,
    REQ_RGBCONTROLLER_UPDATELEDS, REQ_SET_CLIENT_NAME,
};

fn push_len_string(buf: &mut Vec<u8>, s: &str) {
    let bytes = s.as_bytes();
    buf.extend_from_slice(&(bytes.len() as u16).to_le_bytes());
    buf.extend_from_slice(bytes);
}

/// A descriptor payload: device type, six strings, `modes` mode records,
/// the given zone records (pre-encoded), and `leds` LED records.
fn build_descriptor(
    device_type: u32,
    names: [&str; 6],
    mode_color_counts: &[u16],
    zones: &[Vec<u8>],
    leds: &[(&str, u32)],
) -> Vec<u8> {
    let mut buf = Vec::new();
    buf.extend_from_slice(&0u32.to_le_bytes()); // total-size field, ignored by the decoder
    buf.extend_from_slice(&device_type.to_le_bytes());
    for n in names {
        push_len_string(&mut buf, n);
    }
    buf.extend_from_slice(&(mode_color_counts.len() as u16).to_le_bytes());
    buf.extend_from_slice(&0u32.to_le_bytes()); // active mode index
    for (m, colors) in mode_color_counts.iter().enumerate() {
        push_len_string(&mut buf, &format!("mode{}", m));
        buf.extend_from_slice(&[0u8; 36]); // fixed-layout mode region
        buf.extend_from_slice(&colors.to_le_bytes());
        for _ in 0..*colors {
            buf.extend_from_slice(&[0u8; 4]);
        }
    }
    buf.extend_from_slice(&(zones.len() as u16).to_le_bytes());
    for z in zones {
        buf.extend_from_slice(z);
    }
    buf.extend_from_slice(&(leds.len() as u16).to_le_bytes());
    for (name, value) in leds {
        push_len_string(&mut buf, name);
        buf.extend_from_slice(&value.to_le_bytes());
    }
    buf
}

fn linear_zone(name: &str) -> Vec<u8> {
    let mut z = Vec::new();
    push_len_string(&mut z, name);
    let mut block = [0u8; 18];
    block[0] = 1; // zone-type tag: linear
    z.extend_from_slice(&block);
    z
}

fn matrix_zone(name: &str, height: u32, width: u32) -> Vec<u8> {
    let mut z = Vec::new();
    push_len_string(&mut z, name);
    let mut block = [0u8; 18];
    block[0] = 2; // zone-type tag: matrix
    z.extend_from_slice(&block);
    z.extend_from_slice(&height.to_le_bytes());
    z.extend_from_slice(&width.to_le_bytes());
    for _ in 0..height * width {
        z.extend_from_slice(&[0u8; 4]);
    }
    z
}

#[test]
fn envelope_layout() {
    let req = encode_request(3, REQ_REQUEST_CONTROLLER_DATA, &[9, 8, 7]);
    assert_eq!(req.len(), 19);
    assert_eq!(&req[0..4], b"ORGB");
    assert_eq!(&req[4..8], &3u32.to_le_bytes());
    assert_eq!(&req[8..12], &1u32.to_le_bytes());
    assert_eq!(&req[12..16], &3u32.to_le_bytes());
    assert_eq!(&req[16..], &[9, 8, 7]);
}

#[test]
fn header_decode_ok() {
    let mut header = Vec::new();
    header.extend_from_slice(b"ORGB");
    header.extend_from_slice(&7u32.to_le_bytes());
    header.extend_from_slice(&REQ_REQUEST_CONTROLLER_COUNT.to_le_bytes());
    header.extend_from_slice(&42u32.to_le_bytes());
    assert_eq!(decode_header(&header, 7, REQ_REQUEST_CONTROLLER_COUNT), Ok(42));
}

#[test]
fn header_decode_rejects_bad_magic() {
    let mut header = Vec::new();
    header.extend_from_slice(b"XRGB");
    header.extend_from_slice(&7u32.to_le_bytes());
    header.extend_from_slice(&0u32.to_le_bytes());
    header.extend_from_slice(&0u32.to_le_bytes());
    assert_eq!(decode_header(&header, 7, 0), Err(ProtocolError::MalformedResponse));
}

#[test]
fn header_decode_rejects_wrong_echo() {
    let mut header = Vec::new();
    header.extend_from_slice(b"ORGB");
    header.extend_from_slice(&7u32.to_le_bytes());
    header.extend_from_slice(&REQ_REQUEST_PROTOCOL_VERSION.to_le_bytes());
    header.extend_from_slice(&4u32.to_le_bytes());
    // wrong device id
    assert_eq!(
        decode_header(&header, 8, REQ_REQUEST_PROTOCOL_VERSION),
        Err(ProtocolError::MalformedResponse)
    );
    // wrong message type
    assert_eq!(
        decode_header(&header, 7, REQ_SET_CLIENT_NAME),
        Err(ProtocolError::MalformedResponse)
    );
}

#[test]
fn fire_and_forget_types() {
    assert!(!expects_response(REQ_SET_CLIENT_NAME));
    assert!(!expects_response(REQ_RGBCONTROLLER_UPDATELEDS));
    assert!(expects_response(REQ_REQUEST_PROTOCOL_VERSION));
    assert!(expects_response(REQ_REQUEST_CONTROLLER_COUNT));
    assert!(expects_response(REQ_REQUEST_CONTROLLER_DATA));
}

#[test]
fn parse_string_reads_text_and_advances() {
    let data = [3u8, 0, b'a', b'b', b'c', 99];
    let (end, s) = parse_string(0, &data).unwrap();
    assert_eq!(end, 5);
    assert_eq!(s, "abc");
}

#[test]
fn parse_string_empty() {
    let data = [0u8, 0];
    let (end, s) = parse_string(0, &data).unwrap();
    assert_eq!(end, 2);
    assert_eq!(s, "");
}

#[test]
fn parse_string_bounds_checked() {
    // length field says five bytes, only three remain
    let data = [5u8, 0, b'a', b'b', b'c'];
    assert_eq!(parse_string(0, &data), Err(ProtocolError::MalformedResponse));
    // not even the length field fits
    assert_eq!(parse_string(4, &data), Err(ProtocolError::MalformedResponse));
    assert_eq!(parse_string(0, &[7u8]), Err(ProtocolError::MalformedResponse));
}

#[test]
fn parse_string_decodes_utf8() {
    // a two-byte UTF-8 character must come back as one decoded character
    let data = [2u8, 0, 0xC3, 0xA9];
    let (end, s) = parse_string(0, &data).unwrap();
    assert_eq!(end, 4);
    assert_eq!(s, "\u{e9}");
    // an invalid UTF-8 byte is a data error, not a crash
    let bad = [1u8, 0, 0xFF];
    assert_eq!(parse_string(0, &bad), Err(ProtocolError::MalformedResponse));
}

#[test]
fn color_payload_three_leds() {
    let payload = build_color_payload(3, &RGBColor::new(10, 20, 30));
    // total bytes on the wire: 4 (length field) + 2 (count) + 3 * 4
    assert_eq!(payload.len(), 18);
    // the length field itself encodes 4 * led_count + 6
    assert_eq!(&payload[0..4], &18u32.to_le_bytes());
    assert_eq!(&payload[4..6], &3u16.to_le_bytes());
    for i in 0..3 {
        assert_eq!(&payload[6 + 4 * i..10 + 4 * i], &[10, 20, 30, 0]);
    }
}

#[test]
fn color_payload_zero_leds() {
    let payload = build_color_payload(0, &RGBColor::new(1, 2, 3));
    assert_eq!(payload.len(), 6);
    assert_eq!(&payload[0..4], &6u32.to_le_bytes());
    assert_eq!(&payload[4..6], &0u16.to_le_bytes());
}

#[test]
fn color_payload_sizes_match_formula() {
    for n in [0u16, 1, 2, 5, 60] {
        let payload = build_color_payload(n, &RGBColor::black());
        assert_eq!(payload.len(), 4 * n as usize + 6);
        assert_eq!(&payload[0..4], &(4 * n as u32 + 6).to_le_bytes());
    }
}

#[test]
fn unpack_minimal_descriptor() {
    let data = build_descriptor(5, [""; 6], &[], &[], &[]);
    assert_eq!(data.len(), 30);
    let c = ControllerData::unpack(7, &data).unwrap();
    assert_eq!(c.id, 7);
    assert_eq!(c.device_type, 5);
    assert_eq!(c.name, "");
    assert_eq!(c.leds.len(), 0);
}

#[test]
fn unpack_full_descriptor() {
    let data = build_descriptor(
        1,
        ["GPU", "Vendor", "A card", "1.0", "SN42", "pci0"],
        &[0, 3],
        &[linear_zone("strip")],
        &[("led0", 11), ("led1", 22)],
    );
    let c = ControllerData::unpack(0, &data).unwrap();
    assert_eq!(c.id, 0);
    assert_eq!(c.device_type, 1);
    assert_eq!(c.name, "GPU");
    assert_eq!(c.metadata.vendor, "Vendor");
    assert_eq!(c.metadata.description, "A card");
    assert_eq!(c.metadata.version, "1.0");
    assert_eq!(c.metadata.serial, "SN42");
    assert_eq!(c.metadata.location, "pci0");
    assert_eq!(c.leds.len(), 2);
    assert_eq!(c.leds[0].name, "led0");
    assert_eq!(c.leds[0].value, 11);
    assert_eq!(c.leds[1].name, "led1");
    assert_eq!(c.leds[1].value, 22);
}

#[test]
fn unpack_consumes_matrix_zone_exactly() {
    let data = build_descriptor(
        2,
        ["KB", "V", "D", "1", "S", "L"],
        &[1],
        &[matrix_zone("keys", 2, 3), linear_zone("edge")],
        &[("k", 9)],
    );
    // well-formed: decodes, and the LED list after the zones is intact
    let c = ControllerData::unpack(1, &data).unwrap();
    assert_eq!(c.name, "KB");
    assert_eq!(c.leds.len(), 1);
    assert_eq!(c.leds[0].name, "k");
    assert_eq!(c.leds[0].value, 9);
    // dropping the final byte starves the last read: the cursor really
    // runs to the very end of the payload
    let truncated = &data[..data.len() - 1];
    let r = ControllerData::unpack(1, truncated);
    assert_eq!(r.unwrap_err(), ProtocolError::MalformedResponse);
}

#[test]
fn unpack_rejects_every_truncation() {
    let data = build_descriptor(
        3,
        ["Strip", "V", "D", "9", "S", "usb"],
        &[2],
        &[matrix_zone("m", 1, 2), linear_zone("z")],
        &[("a", 1), ("b", 2)],
    );
    assert!(ControllerData::unpack(0, &data).is_ok());
    for cut in 0..data.len() {
        let r = ControllerData::unpack(0, &data[..cut]);
        assert!(r.is_err(), "truncation to {} bytes must fail", cut);
    }
}

#[test]
fn unpack_rejects_oversized_counts() {
    // LED count claims 40 LEDs, none follow
    let mut data = build_descriptor(0, [""; 6], &[], &[], &[]);
    let n = data.len();
    data[n - 2] = 40;
    assert!(ControllerData::unpack(0, &data).is_err());
    // a mode color count far past the buffer
    let data = {
        let mut buf = Vec::new();
        buf.extend_from_slice(&0u32.to_le_bytes());
        buf.extend_from_slice(&0u32.to_le_bytes());
        for _ in 0..6 {
            buf.extend_from_slice(&0u16.to_le_bytes());
        }
        buf.extend_from_slice(&1u16.to_le_bytes()); // one mode
        buf.extend_from_slice(&0u32.to_le_bytes());
        buf.extend_from_slice(&0u16.to_le_bytes()); // empty mode name
        buf.extend_from_slice(&[0u8; 36]);
        buf.extend_from_slice(&0xFFFFu16.to_le_bytes()); // 65535 colors
        buf
    };
    assert!(ControllerData::unpack(0, &data).is_err());
}

#[test]
fn unpack_ignores_trailing_bytes() {
    let mut data = build_descriptor(4, [""; 6], &[], &[], &[("x", 5)]);
    data.push(0xAB);
    let c = ControllerData::unpack(2, &data).unwrap();
    assert_eq!(c.leds.len(), 1);
}
