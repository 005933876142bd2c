use rgbmon::controller::{ControllerData, ControllerMetaData, LedData};
use rgbmon::error::ProtocolError;
use rgbmon::session::{
    check_version, client_name_payload, parse_controller_count, retry_decision, version_payload,
    RetryDecision, Session,
};

fn meta() -> ControllerMetaData {
    ControllerMetaData {
        vendor: String::from("v"),
        description: String::from("d"),
        version: String::from("1"),
        serial: String::from("s"),
        location: String::from("l"),
    }
}

fn controller(id: u32, name: &str, device_type: u32, led_count: usize) -> ControllerData {
    let mut leds = Vec::new();
    for i in 0..led_count {
        leds.push(LedData { name: format!("led{}", i), value: i as u32 });
    }
    ControllerData { id, name: String::from(name), metadata: meta(), device_type, leds }
}

fn sample_session() -> Session {
    let mut s = Session::new();
    s.controllers.push(controller(0, "mobo", 0, 8));
    s.controllers.push(controller(1, "gpu", 2, 4));
    s.controllers.push(controller(2, "ram", 3, 5));
    s.controllers.push(controller(3, "ram", 3, 5));
    s
}

fn descriptor_payload(device_type: u32, name: &str) -> Vec<u8> {
    let mut buf = Vec::new();
    buf.extend_from_slice(&0u32.to_le_bytes());
    buf.extend_from_slice(&device_type.to_le_bytes());
    buf.extend_from_slice(&(name.len() as u16).to_le_bytes());
    buf.extend_from_slice(name.as_bytes());
    for _ in 0..5 {
        buf.extend_from_slice(&0u16.to_le_bytes());
    }
    buf.extend_from_slice(&0u16.to_le_bytes()); // modes
    buf.extend_from_slice(&0u32.to_le_bytes()); // active mode
    buf.extend_from_slice(&0u16.to_le_bytes()); // zones
    buf.extend_from_slice(&1u16.to_le_bytes()); // one led
    buf.extend_from_slice(&0u16.to_le_bytes()); // empty led name
    buf.extend_from_slice(&7u32.to_le_bytes()); // led value
    buf
}

#[test]
fn new_session_is_empty() {
    let s = Session::new();
    assert_eq!(s.retries, 3);
    assert!(s.controllers.is_empty());
    assert!(s.server_protocol.is_none());
}

#[test]
fn select_by_id_picks_one() {
    let s = sample_session();
    let cmds = s.select_by_id(1).unwrap();
    assert_eq!(cmds.len(), 1);
    assert_eq!(cmds[0].controller_id, 1);
    assert_eq!(cmds[0].led_count, 4);
}

#[test]
fn select_by_id_not_found() {
    let s = sample_session();
    assert_eq!(s.select_by_id(99).unwrap_err(), ProtocolError::NotFound);
    let empty = Session::new();
    assert_eq!(empty.select_by_id(0).unwrap_err(), ProtocolError::NotFound);
}

#[test]
fn select_by_name_collects_all_matches() {
    let s = sample_session();
    let cmds = s.select_by_name("ram").unwrap();
    assert_eq!(cmds.len(), 2);
    assert_eq!(cmds[0].controller_id, 2);
    assert_eq!(cmds[1].controller_id, 3);
    assert_eq!(s.select_by_name("nope").unwrap_err(), ProtocolError::NotFound);
}

#[test]
fn select_by_device_type_filters() {
    let s = sample_session();
    let cmds = s.select_by_device_type(3).unwrap();
    assert_eq!(cmds.len(), 2);
    assert_eq!(s.select_by_device_type(9).unwrap_err(), ProtocolError::NotFound);
}

#[test]
fn select_by_device_types_partial_match_succeeds() {
    let s = sample_session();
    // only one of the asked-for types exists: still a success, and only
    // the matching controllers are selected
    let cmds = s.select_by_device_types(&vec![7, 2, 9]).unwrap();
    assert_eq!(cmds.len(), 1);
    assert_eq!(cmds[0].controller_id, 1);
}

#[test]
fn select_by_device_types_none_match() {
    let s = sample_session();
    let r = s.select_by_device_types(&vec![7, 9]);
    assert_eq!(r.unwrap_err(), ProtocolError::NotFound);
}

#[test]
fn select_all_takes_everything() {
    let s = sample_session();
    let cmds = s.select_all();
    assert_eq!(cmds.len(), 4);
    assert_eq!(cmds[0].controller_id, 0);
    assert_eq!(cmds[0].led_count, 8);
    // an empty directory is a no-op, not an error
    let empty = Session::new();
    assert!(empty.select_all().is_empty());
}

#[test]
fn load_directory_replaces_wholesale() {
    let mut s = sample_session();
    let payloads = vec![descriptor_payload(1, "new0"), descriptor_payload(2, "new1")];
    s.load_directory(&payloads).unwrap();
    assert_eq!(s.controllers.len(), 2);
    assert_eq!(s.controllers[0].id, 0);
    assert_eq!(s.controllers[0].name, "new0");
    assert_eq!(s.controllers[1].id, 1);
    assert_eq!(s.controllers[1].name, "new1");
    assert_eq!(s.controllers[1].leds.len(), 1);
    assert_eq!(s.controllers[1].leds[0].value, 7);
}

#[test]
fn failed_load_keeps_previous_directory() {
    let mut s = sample_session();
    // controller index 2 of 5 is malformed
    let payloads = vec![
        descriptor_payload(1, "a"),
        descriptor_payload(1, "b"),
        vec![1, 2, 3],
        descriptor_payload(1, "d"),
        descriptor_payload(1, "e"),
    ];
    let r = s.load_directory(&payloads);
    assert_eq!(r.unwrap_err(), ProtocolError::MalformedResponse);
    // the previously loaded directory is untouched, not half-replaced
    assert_eq!(s.controllers.len(), 4);
    assert_eq!(s.controllers[0].name, "mobo");
    assert_eq!(s.controllers[1].name, "gpu");
    assert_eq!(s.controllers[2].name, "ram");
    assert_eq!(s.controllers[3].name, "ram");
}

#[test]
fn retry_budget_counts_attempts() {
    // an operation that fails every time is attempted exactly retries + 1
    // times before the error surfaces
    for retries in [0u8, 1, 3, 7] {
        let mut attempts: u32 = 0;
        loop {
            attempts += 1; // the attempt itself, which fails
            if retry_decision(attempts, retries) == RetryDecision::Fail {
                break;
            }
        }
        assert_eq!(attempts, retries as u32 + 1);
    }
}

#[test]
fn version_negotiation() {
    assert_eq!(version_payload(), 2u32.to_le_bytes().to_vec());
    assert_eq!(check_version(&2u32.to_le_bytes()), Ok(2));
    assert_eq!(check_version(&3u32.to_le_bytes()), Err(ProtocolError::ProtocolMismatch(3)));
    assert_eq!(check_version(&[1, 2]), Err(ProtocolError::MalformedResponse));
}

#[test]
fn client_registration_payload() {
    assert_eq!(client_name_payload(), b"rgbmon 0.0.1\0".to_vec());
}

#[test]
fn controller_count_parsing() {
    assert_eq!(parse_controller_count(&5u32.to_le_bytes()), Ok(5));
    assert_eq!(parse_controller_count(&[1, 2, 3]), Err(ProtocolError::MalformedResponse));
}
