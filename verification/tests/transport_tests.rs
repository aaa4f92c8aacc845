use vpp_api_gen::frame::{classify_reply, encode_sock_header, parse_sock_header, prepend_msg_id, FrameError, ReplyAction};
use vpp_api_gen::message::{ControlPing, ControlPingReply, VacErrorNo, VppApiMessage};
use vpp_api_gen::split_into_id_and_msg;

#[test]
fn split_reads_big_endian_id_and_payload() {
    let data = [0x01u8, 0x02, 0xaa, 0xbb, 0xcc];
    let (id, payload) = split_into_id_and_msg(&data).unwrap();
    assert_eq!(id, 0x0102);
    assert_eq!(payload, vec![0xaa, 0xbb, 0xcc]);
}

#[test]
fn split_refuses_short_frames() {
    assert_eq!(split_into_id_and_msg(&[1, 2]), Err(FrameError::TooShort));
    assert_eq!(split_into_id_and_msg(&[]), Err(FrameError::TooShort));
}

#[test]
fn framing_round_trip() {
    let payload = [9u8, 8, 7];
    let framed = prepend_msg_id(0xbeef, &payload);
    assert_eq!(framed, vec![0xbe, 0xef, 9, 8, 7]);
    let (id, back) = split_into_id_and_msg(&framed).unwrap();
    assert_eq!(id, 0xbeef);
    assert_eq!(back, payload.to_vec());
}

#[test]
fn reply_classification() {
    assert_eq!(classify_reply(5, 7, 5), ReplyAction::Finish);
    assert_eq!(classify_reply(7, 7, 5), ReplyAction::Deliver);
    assert_eq!(classify_reply(9, 7, 5), ReplyAction::Skip);
    // The finish check wins when the identifiers coincide.
    assert_eq!(classify_reply(5, 5, 5), ReplyAction::Finish);
}

#[test]
fn control_ping_capability_contract() {
    assert_eq!(ControlPing::get_message_name_and_crc(), "control_ping_51077d14");
    assert_eq!(ControlPingReply::get_message_name_and_crc(), "control_ping_reply_f6b0b8ca");
    let mut ping = ControlPing { client_index: 0, context: 0 };
    ping.set_context(42);
    ping.set_client_index(7);
    assert_eq!(ping.context, 42);
    assert_eq!(ping.client_index, 7);
}

#[test]
fn vac_error_codes() {
    assert_eq!(VacErrorNo::VacSvmQueueSub1.code(), -1);
    assert_eq!(VacErrorNo::VacSvmQueueSub2.code(), -2);
    assert_eq!(VacErrorNo::VacNotConnected.code(), -3);
    assert_eq!(VacErrorNo::VacShmNotReady.code(), -4);
    assert_eq!(VacErrorNo::VacTimeout.code(), -5);
    assert_eq!(VacErrorNo::from_code(-3), Some(VacErrorNo::VacNotConnected));
    assert_eq!(VacErrorNo::from_code(0), None);
}

#[test]
fn sock_header_layout_and_round_trip() {
    let h = encode_sock_header(0x0102a3b4);
    assert_eq!(h.len(), 16);
    assert_eq!(&h[0..8], &[0u8; 8]);
    assert_eq!(&h[8..12], &[0x01, 0x02, 0xa3, 0xb4]);
    assert_eq!(&h[12..16], &[0u8; 4]);
    assert_eq!(parse_sock_header(&h), Ok(0x0102a3b4));
    assert_eq!(parse_sock_header(&h[0..15]), Err(FrameError::TooShort));
}
