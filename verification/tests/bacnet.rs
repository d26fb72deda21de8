use industrial_fixtures::bacnet::{
    handle, iam_frame, who_is_matches, wrap_bvlc, BacnetError, FrameAction, WhoIsRange,
    DEFAULT_DEVICE_INSTANCE, DEFAULT_PORT as DEVICE_PORT,
};
use industrial_fixtures::bacnet_server::DEFAULT_PORT;

#[test]
fn has_default_port() {
    assert_eq!(DEFAULT_PORT, 0);
}

#[test]
fn device_defaults() {
    assert_eq!(DEVICE_PORT, 47808);
    assert_eq!(DEFAULT_DEVICE_INSTANCE, 11001);
}

#[test]
fn who_is_range_semantics() {
    let r = |low, high| WhoIsRange { low, high };
    assert!(who_is_matches(r(None, None), 11001));
    assert!(who_is_matches(r(Some(11001), Some(11001)), 11001));
    assert!(!who_is_matches(r(Some(1), Some(11000)), 11001));
    assert!(who_is_matches(r(Some(11000), None), 11001));
    assert!(!who_is_matches(r(None, Some(11000)), 11001));
}

#[test]
fn bvlc_header_carries_function_and_length() {
    let frame = wrap_bvlc(&[0x10, 0x08], 0x0A);
    assert_eq!(frame[0], 0x81);
    assert_eq!(frame[1], 0x0A);
    assert_eq!(usize::from(frame[2]) * 256 + usize::from(frame[3]), frame.len());
    assert_eq!(&frame[frame.len() - 2..], &[0x10, 0x08]);
    // NPDU: version 1, control 0 (no reply expected)
    assert_eq!(&frame[4..6], &[0x01, 0x00]);
}

#[test]
fn non_bip_frames_are_ignored() {
    assert_eq!(handle(&[]), Ok(FrameAction::Ignore));
    assert_eq!(handle(&[0x82, 0x0A, 0, 4]), Ok(FrameAction::Ignore));
    assert_eq!(handle(&[0x81, 0x04, 0, 4]), Ok(FrameAction::Ignore));
}

#[test]
fn broken_npdu_is_an_error() {
    assert_eq!(handle(&[0x81, 0x0A, 0, 5, 0x02]), Err(BacnetError::Npdu));
}

#[test]
fn who_is_for_all_gets_i_am() {
    // BVLC broadcast, NPDU v1 no flags, APDU unconfirmed Who-Is (0x10 0x08)
    let frame = [0x81, 0x0B, 0x00, 0x08, 0x01, 0x00, 0x10, 0x08];
    let expected = iam_frame().expect("i-am");
    assert_eq!(handle(&frame), Ok(FrameAction::Reply(expected.clone())));
    assert_eq!(expected[1], 0x0B);
    // APDU: unconfirmed request (0x10), service I-Am (0x00)
    assert_eq!(&expected[6..8], &[0x10, 0x00]);
}

#[test]
fn who_is_for_another_range_is_ignored() {
    // Who-Is with limits 1..=5 (context tags 0 and 1)
    let frame = [0x81, 0x0B, 0x00, 0x0C, 0x01, 0x00, 0x10, 0x08, 0x09, 0x01, 0x19, 0x05];
    assert_eq!(handle(&frame), Ok(FrameAction::Ignore));
}

#[test]
fn read_property_of_present_value_is_handed_on() {
    // Confirmed request, invoke id 7, ReadProperty of AI:1 Present_Value (85)
    let apdu = [0x00, 0x05, 0x07, 0x0C, 0x0C, 0x00, 0x00, 0x00, 0x01, 0x19, 0x55];
    let mut frame = vec![0x81, 0x0A, 0x00, 0x00, 0x01, 0x04];
    frame.extend_from_slice(&apdu);
    let len = frame.len() as u8;
    frame[3] = len;
    assert_eq!(handle(&frame), Ok(FrameAction::ReadPresentValue(7, 1)));
}

#[test]
fn read_property_of_other_property_is_ignored() {
    // Same request, property Object_Name (77)
    let apdu = [0x00, 0x05, 0x07, 0x0C, 0x0C, 0x00, 0x00, 0x00, 0x01, 0x19, 0x4D];
    let mut frame = vec![0x81, 0x0A, 0x00, 0x00, 0x01, 0x04];
    frame.extend_from_slice(&apdu);
    let len = frame.len() as u8;
    frame[3] = len;
    assert_eq!(handle(&frame), Ok(FrameAction::Ignore));
}
