use openvpn_plugin::types::{events_to_bitmask, EventType};

#[test]
fn event_enum_to_str() {
    let result = format!("{:?}", EventType::Up);
    assert_eq!("Up", result);
}

#[test]
fn events_to_bitmask_no_events() {
    let result = events_to_bitmask(&[]);
    assert_eq!(0, result);
}

#[test]
fn events_to_bitmask_one_event() {
    let result = events_to_bitmask(&[EventType::Up]);
    assert_eq!(0b1, result);
}

#[test]
fn events_to_bitmask_another_event() {
    let result = events_to_bitmask(&[EventType::RouteUp]);
    assert_eq!(0b100, result);
}

#[test]
fn events_to_bitmask_many_events() {
    let result = events_to_bitmask(&[EventType::RouteUp, EventType::RoutePredown]);
    assert_eq!((1 << 12) | (1 << 2), result);
}

#[test]
fn events_max_value() {
    let highest = EventType::from_int(15);
    assert_eq!(highest, Ok(EventType::ClientCrresponse));

    assert_eq!(EventType::from_int(16), Err(16));
}

#[test]
fn event_codes_roundtrip() {
    for code in 0..16 {
        let event = EventType::from_int(code).unwrap();
        assert_eq!(code, event.code());
    }
}

#[test]
fn event_from_negative_code_fails() {
    assert_eq!(EventType::from_int(-1), Err(-1));
    assert_eq!(EventType::from_int(i32::MIN), Err(i32::MIN));
    assert_eq!(EventType::from_int(i32::MAX), Err(i32::MAX));
}

#[test]
fn legacy_event_still_decodes() {
    assert_eq!(EventType::from_int(11), Ok(EventType::EnablePf));
}
