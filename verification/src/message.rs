//! Messages of the websocket connection.

use screeps_api::websocket::ChannelUpdate::RoomMapView;
use screeps_api::websocket::RoomMapViewUpdate;
use screeps_api::websocket::ScreepsMessage::{
    AuthFailed as Refusal, AuthOk as Consent, ChannelUpdate as Update, Other as Unknown,
    ServerPackage as Package, ServerProtocol as Protocol, ServerTime as Time,
};
use screeps_api::websocket::SockjsMessage as Frame;
use screeps_api::websocket::SockjsMessage::{Close, Heartbeat, Message, Messages, Open};
use vstd::prelude::*;

use crate::far_rooms::{is_readable, readable};
use crate::message::ScreepsMessage::{
    AuthFailed, AuthOk, MapView, Other, OtherUpdate, ServerPackage, ServerProtocol, ServerTime,
};
use crate::message::SockjsMessage::{
    Close as Closed, Message as OneMessage, Messages as ManyMessages,
};
use crate::room::{decimal, RoomName};

verus! {

/// `screeps_api::websocket::RoomMapViewUpdate`: what is where in a room. It is only passed on.
#[verifier::external_type_specification]
#[verifier::external_body]
pub struct ExRoomMapViewUpdate(RoomMapViewUpdate);

/// Why a websocket is closed.
#[derive(Debug, PartialEq, Eq)]
pub struct CloseData {
    pub status_code: u16,
    pub reason: String,
}

/// A websocket message.
#[derive(Debug, PartialEq, Eq)]
pub enum OwnedMessage {
    Text(String),
    Binary(Vec<u8>),
    Close(Option<CloseData>),
    Ping(Vec<u8>),
    Pong(Vec<u8>),
}

/// What an [`OwnedMessage`] holds. The data of a close message are its status code and its reason.
pub enum OwnedMessageView {
    Text(Seq<char>),
    Binary(Seq<u8>),
    Close(Option<(u16, Seq<char>)>),
    Ping(Seq<u8>),
    Pong(Seq<u8>),
}

impl View for OwnedMessage {
    type V = OwnedMessageView;

    open spec fn view(&self) -> OwnedMessageView {
        match self {
            OwnedMessage::Text(text) => OwnedMessageView::Text(text@),
            OwnedMessage::Binary(data) => OwnedMessageView::Binary(data@),
            OwnedMessage::Close(None) => OwnedMessageView::Close(None),
            OwnedMessage::Close(Some(data)) => OwnedMessageView::Close(
                Some((data.status_code, data.reason@)),
            ),
            OwnedMessage::Ping(data) => OwnedMessageView::Ping(data@),
            OwnedMessage::Pong(data) => OwnedMessageView::Pong(data@),
        }
    }
}

/// A message from the game server.
#[derive(Debug)]
pub enum ScreepsMessage {
    /// The token was not accepted.
    AuthFailed,
    /// The token was accepted, and this one takes its place.
    AuthOk { new_token: String },
    /// What a room looks like on the map.
    MapView { room_name: RoomName, update: RoomMapViewUpdate },
    /// An update of another channel.
    OtherUpdate,
    /// The protocol of the server.
    ServerProtocol,
    /// The package of the server.
    ServerPackage,
    /// The time of the server.
    ServerTime,
    /// A text of an unknown form.
    Other,
}

/// What a [`ScreepsMessage`] holds.
pub enum ScreepsMessageView {
    AuthFailed,
    AuthOk { new_token: Seq<char> },
    MapView { room_name: RoomName, update: RoomMapViewUpdate },
    OtherUpdate,
    ServerProtocol,
    ServerPackage,
    ServerTime,
    Other,
}

impl View for ScreepsMessage {
    type V = ScreepsMessageView;

    open spec fn view(&self) -> ScreepsMessageView {
        match self {
            ScreepsMessage::AuthFailed => ScreepsMessageView::AuthFailed,
            ScreepsMessage::AuthOk { new_token } => ScreepsMessageView::AuthOk {
                new_token: new_token@,
            },
            ScreepsMessage::MapView { room_name, update } => ScreepsMessageView::MapView {
                room_name: *room_name,
                update: *update,
            },
            ScreepsMessage::OtherUpdate => ScreepsMessageView::OtherUpdate,
            ScreepsMessage::ServerProtocol => ScreepsMessageView::ServerProtocol,
            ScreepsMessage::ServerPackage => ScreepsMessageView::ServerPackage,
            ScreepsMessage::ServerTime => ScreepsMessageView::ServerTime,
            ScreepsMessage::Other => ScreepsMessageView::Other,
        }
    }
}

/// A frame of the SockJS protocol.
#[derive(Debug)]
pub enum SockjsMessage {
    Open,
    Heartbeat,
    Close { code: i64, reason: String },
    Message(ScreepsMessage),
    Messages(Vec<ScreepsMessage>),
}

/// What a [`SockjsMessage`] holds.
pub enum SockjsMessageView {
    Open,
    Heartbeat,
    Close { code: i64, reason: Seq<char> },
    Message(ScreepsMessageView),
    Messages(Seq<ScreepsMessageView>),
}

impl View for SockjsMessage {
    type V = SockjsMessageView;

    open spec fn view(&self) -> SockjsMessageView {
        match self {
            SockjsMessage::Open => SockjsMessageView::Open,
            SockjsMessage::Heartbeat => SockjsMessageView::Heartbeat,
            SockjsMessage::Close { code, reason } => SockjsMessageView::Close {
                code: *code,
                reason: reason@,
            },
            SockjsMessage::Message(message) => SockjsMessageView::Message(message@),
            SockjsMessage::Messages(messages) => SockjsMessageView::Messages(
                messages@.map_values(|message: ScreepsMessage| message@),
            ),
        }
    }
}

/// The messages which a frame carries, in order.
pub open spec fn carried(frame: SockjsMessageView) -> Seq<ScreepsMessageView> {
    match frame {
        SockjsMessageView::Message(message) => seq![message],
        SockjsMessageView::Messages(messages) => messages,
        _ => seq![],
    }
}

/// What came of reading a frame: the frame, or the reason why the text is none.
pub open spec fn parsed_view(
    parsed: Result<SockjsMessage, String>,
) -> Result<SockjsMessageView, Seq<char>> {
    match parsed {
        Ok(frame) => Ok(frame@),
        Err(reason) => Err(reason@),
    }
}

/// The frame which a text stands for, or the reason why it stands for none.
pub uninterp spec fn sockjs_parsed(text: Seq<char>) -> Result<SockjsMessageView, Seq<char>>;

/// What comes of reading a text as a frame. One that speaks of a room which is too far away is
/// malformed.
pub open spec fn frame_parsed(text: Seq<char>) -> Result<SockjsMessageView, Seq<char>> {
    if is_readable(text) {
        sockjs_parsed(text)
    } else {
        Err("room coordinate out of range"@)
    }
}

/// Numbers in decimal notation, with a comma and a space between them.
pub open spec fn listed(data: Seq<u8>) -> Seq<char>
    decreases data.len(),
{
    if data.len() == 0 {
        seq![]
    } else if data.len() == 1 {
        decimal(data[0] as nat)
    } else {
        listed(data.drop_last()) + seq![',', ' '] + decimal(data.last() as nat)
    }
}

/// The way a text message, or a close message with data, is written in error texts.
pub uninterp spec fn message_debug(message: OwnedMessageView) -> Seq<char>;

/// The way a message is written in error texts.
pub open spec fn shown(message: OwnedMessageView) -> Seq<char> {
    match message {
        OwnedMessageView::Binary(data) => "Binary(["@ + listed(data) + "])"@,
        OwnedMessageView::Ping(data) => "Ping(["@ + listed(data) + "])"@,
        OwnedMessageView::Pong(data) => "Pong(["@ + listed(data) + "])"@,
        OwnedMessageView::Close(None) => "Close(None)"@,
        _ => message_debug(message),
    }
}

/// Reads a frame from the text of a websocket message.
///
/// Calls `screeps_api::websocket::SockjsMessage::parse`. What it gives depends on the text alone.
/// An error is kept as the text that its `Display` implementation writes. Of updates of channels
/// other than the map view, of facts about the server and of texts of an unknown form only that is
/// kept, as the network layer does nothing with them. Tokens are cut out of the text, so they are
/// valid UTF-8. Where the channel of a message has a room name with a west or south distance of
/// `-2147483648`, the outside crate negates that number, which overflows, so such texts are left
/// out. Nothing is said about which texts stand for which frames.
#[verifier::external_body]
fn parse(text: &str) -> (res: Result<SockjsMessage, String>)
    requires
        is_readable(text@),
    ensures
        parsed_view(res) == sockjs_parsed(text@),
{
    let read = |message| match message {
        Refusal => AuthFailed,
        Consent { new_token } => AuthOk { new_token: String::from_utf8_lossy(&new_token).into() },
        Update { update: RoomMapView { room_name, update, .. } } =>
            MapView { room_name: RoomName { x_coord: room_name.x_coord, y_coord: room_name.y_coord }, update },
        Update { .. } => OtherUpdate,
        Protocol { .. } => ServerProtocol, Package { .. } => ServerPackage,
        Time { .. } => ServerTime, Unknown(_) => Other
    };
    Ok(match Frame::parse(text).map_err(|error| error.to_string())? {
        Open => SockjsMessage::Open, Heartbeat => SockjsMessage::Heartbeat,
        Close { code, reason } => Closed { code, reason: reason.into() },
        Message(message) => OneMessage(read(message)),
        Messages(messages) => ManyMessages(messages.into_iter().map(read).collect())
    })
}

/// Reads a text as a frame, or says why it is none.
pub fn read_frame(text: &str) -> (res: Result<SockjsMessage, String>)
    ensures
        parsed_view(res) == frame_parsed(text@),
{
    if readable(text) {
        parse(text)
    } else {
        Err("room coordinate out of range".to_owned())
    }
}

/// Writes a message the way error texts show it.
///
/// Calls the `Debug` implementation of `websocket::OwnedMessage` on the same message. It writes the
/// name of the variant and, in round brackets, what the variant holds: bytes as a list of decimal
/// numbers in square brackets, and `None` where a close message has no data. Of texts and of the
/// data of a close message it is only said that what is written depends on the message alone.
#[verifier::external_body]
pub(crate) fn debug_text(message: OwnedMessage) -> (res: String)
    ensures
        res@ == shown(message@),
        message@ is Text ==> res@ == message_debug(message@),
{
    let message = match message {
        OwnedMessage::Text(text) => websocket::OwnedMessage::Text(text),
        OwnedMessage::Binary(data) => websocket::OwnedMessage::Binary(data),
        OwnedMessage::Close(data) => websocket::OwnedMessage::Close(
            data.map(|data| websocket::message::CloseData::new(data.status_code, data.reason)),
        ),
        OwnedMessage::Ping(data) => websocket::OwnedMessage::Ping(data),
        OwnedMessage::Pong(data) => websocket::OwnedMessage::Pong(data),
    };
    format!("{:?}", message)
}

/// The messages that a frame carries are all of its messages, in order. Only frames of messages
/// carry any.
pub proof fn law_frames_carry_their_messages(
    message: ScreepsMessageView,
    messages: Seq<ScreepsMessageView>,
    code: i64,
    reason: Seq<char>,
)
    ensures
        carried(SockjsMessageView::Message(message)) == seq![message],
        carried(SockjsMessageView::Messages(messages)) == messages,
        carried(SockjsMessageView::Open).len() == 0,
        carried(SockjsMessageView::Heartbeat).len() == 0,
        carried(SockjsMessageView::Close { code, reason }).len() == 0,
{
}

/// A text that can be read is read as the frame that it stands for. Any other is malformed.
pub proof fn law_readable_texts_are_read(text: Seq<char>)
    ensures
        is_readable(text) ==> frame_parsed(text) == sockjs_parsed(text),
        !is_readable(text) ==> frame_parsed(text) is Err,
{
}

} // verus!
