use lobby::message::{Message, Motd};
use lobby::session::Inbound;
use lobby::websocket::{decoded, receive, CloseReason, IntoWebsocketMessage, WsMessage};

#[test]
fn an_encoded_message_is_sent_as_binary() {
    let encoded: Result<Vec<u8>, u8> = Ok(vec![1, 2, 255]);
    assert_eq!(encoded.into_ws_message(), Ok(WsMessage::Binary(vec![1, 2, 255])));
    let failed: Result<Vec<u8>, u8> = Err(4);
    assert_eq!(failed.into_ws_message(), Err(4));
}

#[test]
fn every_kind_of_websocket_message_has_its_bytes() {
    assert_eq!(WsMessage::Text("h\u{e9}".to_string()).into_data(), vec![0x68, 0xc3, 0xa9]);
    assert_eq!(WsMessage::Binary(vec![0, 128]).into_data(), vec![0, 128]);
    assert_eq!(WsMessage::Ping(vec![1]).into_data(), vec![1]);
    assert_eq!(WsMessage::Pong(vec![2]).into_data(), vec![2]);
    assert_eq!(WsMessage::Close(None).into_data(), Vec::<u8>::new());
    let close = CloseReason { code: 1000, reason: "bye".to_string() };
    assert_eq!(WsMessage::Close(Some(close)).into_data(), b"bye".to_vec());
}

#[test]
fn what_was_framed_is_received() {
    let encoded: Result<Vec<u8>, u8> = Ok(vec![9, 8, 7]);
    let framed = encoded.into_ws_message().unwrap();
    assert_eq!(receive::<u8>(Some(Ok(framed))), Ok(vec![9, 8, 7]));
}

#[test]
fn the_end_and_the_failure_of_a_websocket_are_told_apart() {
    assert_eq!(receive::<u8>(None), Err(Inbound::Closed));
    assert_eq!(receive(Some(Err(3u8))), Err(Inbound::Failed(3)));
}

#[test]
fn bytes_that_are_no_message_are_told_apart() {
    let message = Message::from(Motd { message: "x".to_string() });
    assert_eq!(decoded::<u8>(Ok(message.clone())), Inbound::Message(message));
    assert_eq!(decoded(Err(1u8)), Inbound::Undecodable(1));
}
