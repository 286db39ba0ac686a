//! Messages of the protocol as messages of a WebSocket.
use crate::message::Message;
use crate::session::Inbound;
use async_tungstenite::tungstenite;
use vstd::prelude::*;
use vstd::utf8::encode_utf8;

verus! {

/// Why a WebSocket was closed.
#[derive(Debug, Clone, PartialEq, Eq)]
pub struct CloseReason {
    pub code: u16,
    pub reason: String,
}

/// A message of a WebSocket.
#[derive(Debug, Clone, PartialEq, Eq)]
pub enum WsMessage {
    Text(String),
    Binary(Vec<u8>),
    Ping(Vec<u8>),
    Pong(Vec<u8>),
    Close(Option<CloseReason>),
}

impl WsMessage {
    /// The bytes that a message carries: a text's in UTF-8, and of a close those of
    /// its reason.
    pub open spec fn payload(&self) -> Seq<u8> {
        match self {
            WsMessage::Text(text) => encode_utf8(text@),
            WsMessage::Binary(data) => data@,
            WsMessage::Ping(data) => data@,
            WsMessage::Pong(data) => data@,
            WsMessage::Close(None) => seq![],
            WsMessage::Close(Some(close)) => encode_utf8(close.reason@),
        }
    }

    /// The bytes that the message carries.
    pub fn into_data(self) -> (r: Vec<u8>)
        ensures
            r@ == self.payload(),
    {
        tungstenite_into_data(self)
    }
}

/// `tungstenite::Message::binary`, on bytes that are a vector already: the message
/// is a binary one and carries these bytes.
#[verifier::external_body]
fn tungstenite_binary(data: Vec<u8>) -> (r: WsMessage)
    ensures
        r is Binary,
        r->Binary_0@ == data@,
{
    match tungstenite::Message::binary(data) {
        tungstenite::Message::Text(text) => WsMessage::Text(text),
        tungstenite::Message::Binary(data) => WsMessage::Binary(data),
        tungstenite::Message::Ping(data) => WsMessage::Ping(data),
        tungstenite::Message::Pong(data) => WsMessage::Pong(data),
        tungstenite::Message::Close(None) => WsMessage::Close(None),
        tungstenite::Message::Close(Some(close)) => WsMessage::Close(
            Some(CloseReason { code: close.code.into(), reason: close.reason.into_owned() }),
        ),
    }
}

/// `tungstenite::Message::into_data`: the data of a binary message, a ping or a
/// pong, the UTF-8 of a text, and of a close the UTF-8 of its reason, which is
/// nothing where it has none.
#[verifier::external_body]
fn tungstenite_into_data(message: WsMessage) -> (r: Vec<u8>)
    ensures
        r@ == message.payload(),
{
    match message {
        WsMessage::Text(text) => tungstenite::Message::Text(text),
        WsMessage::Binary(data) => tungstenite::Message::Binary(data),
        WsMessage::Ping(data) => tungstenite::Message::Ping(data),
        WsMessage::Pong(data) => tungstenite::Message::Pong(data),
        WsMessage::Close(None) => tungstenite::Message::Close(None),
        WsMessage::Close(Some(close)) => tungstenite::Message::Close(
            Some(tungstenite::protocol::CloseFrame { code: close.code.into(), reason: close.reason.into() }),
        ),
    }.into_data()
}

/// What can be turned into a message of a WebSocket.
pub trait IntoWebsocketMessage: Sized {
    type Error;

    /// The bytes that the message is to carry, or why there are none.
    spec fn encoded(&self) -> Result<Seq<u8>, Self::Error>;

    fn into_ws_message(self) -> (r: Result<WsMessage, Self::Error>)
        ensures
            match self.encoded() {
                Ok(data) => r is Ok && r->Ok_0 is Binary && r->Ok_0->Binary_0@ == data,
                Err(error) => r == Err::<WsMessage, Self::Error>(error),
            },
    ;
}

/// The encoding of a message of the protocol, or the error on which it failed.
impl<E> IntoWebsocketMessage for Result<Vec<u8>, E> {
    type Error = E;

    open spec fn encoded(&self) -> Result<Seq<u8>, E> {
        match self {
            Ok(data) => Ok(data@),
            Err(error) => Err(*error),
        }
    }

    fn into_ws_message(self) -> (r: Result<WsMessage, E>) {
        match self {
            Ok(data) => Ok(tungstenite_binary(data)),
            Err(error) => Err(error),
        }
    }
}

/// The bytes of what a WebSocket yielded next, or what its end or its failure is to
/// the connection.
pub fn receive<E>(received: Option<Result<WsMessage, E>>) -> (r: Result<Vec<u8>, Inbound<E>>)
    ensures
        match received {
            Some(Ok(message)) => r matches Ok(data) && data@ == message.payload(),
            Some(Err(error)) => r == Err::<Vec<u8>, Inbound<E>>(Inbound::Failed(error)),
            None => r == Err::<Vec<u8>, Inbound<E>>(Inbound::Closed),
        },
{
    match received {
        Some(Ok(message)) => Ok(message.into_data()),
        Some(Err(error)) => Err(Inbound::Failed(error)),
        None => Err(Inbound::Closed),
    }
}

/// What the decoding of received bytes is to the connection.
pub fn decoded<E>(result: Result<Message, E>) -> (r: Inbound<E>)
    ensures
        match result {
            Ok(message) => r == Inbound::<E>::Message(message),
            Err(error) => r == Inbound::<E>::Undecodable(error),
        },
{
    match result {
        Ok(message) => Inbound::Message(message),
        Err(error) => Inbound::Undecodable(error),
    }
}

} // verus!
