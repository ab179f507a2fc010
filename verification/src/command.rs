//! Commands to the game server, as the text of websocket messages.

use screeps_api::websocket::{commands, Channel};
use vstd::prelude::*;

use crate::room::{law_names_tell_rooms, RoomName};

verus! {

/// A command the way it is sent: a JSON array which holds the command as its only string.
pub open spec fn framed(command: Seq<char>) -> Seq<char> {
    seq!['[', '"'] + command + seq!['"', ']']
}

/// Whether a character stands for itself in a JSON string.
pub open spec fn plain(c: char) -> bool {
    c >= ' ' && c != '"' && c != '\\'
}

/// The command which subscribes to the map view of a room.
pub open spec fn subscribe_text(room: RoomName) -> Seq<char> {
    framed("subscribe roomMap2:"@ + room.text())
}

/// The command which unsubscribes from the map view of a room.
pub open spec fn unsubscribe_text(room: RoomName) -> Seq<char> {
    framed("unsubscribe roomMap2:"@ + room.text())
}

/// A hexadecimal digit.
pub open spec fn hex(d: int) -> char {
    if d < 10 {
        (48 + d) as char
    } else {
        (87 + d) as char
    }
}

/// The way a character is written in a JSON string.
pub open spec fn escaped_char(c: char) -> Seq<char> {
    match c {
        '"' => seq!['\\', '"'],
        '\\' => seq!['\\', '\\'],
        '\u{8}' => seq!['\\', 'b'],
        '\t' => seq!['\\', 't'],
        '\n' => seq!['\\', 'n'],
        '\u{c}' => seq!['\\', 'f'],
        '\r' => seq!['\\', 'r'],
        _ => if c >= ' ' {
            seq![c]
        } else {
            seq!['\\', 'u', '0', '0', hex(c as int / 16), hex(c as int % 16)]
        },
    }
}

/// The way a text is written in a JSON string.
pub open spec fn escaped(text: Seq<char>) -> Seq<char>
    decreases text.len(),
{
    if text.len() == 0 {
        seq![]
    } else {
        escaped(text.drop_last()) + escaped_char(text.last())
    }
}

/// The message which authenticates with a token.
pub open spec fn authenticate_text(token: Seq<char>) -> Seq<char> {
    framed("auth "@ + escaped(token))
}

/// Writes the command which subscribes to the map view of a room.
///
/// Calls `screeps_api::websocket::commands::subscribe` on the channel that
/// `Channel::room_map_view_ps` gives for the room. It writes the word `subscribe` and the name of
/// the channel into a JSON array. A room name holds only letters and digits, which JSON writes as
/// they are. The smallest coordinate is left out, as it has no name.
#[verifier::external_body]
pub(crate) fn subscribe(room: RoomName) -> (res: String)
    requires
        room.displayable(),
    ensures
        res@ == subscribe_text(room),
{
    let room = screeps_api::RoomName { x_coord: room.x_coord, y_coord: room.y_coord };
    commands::subscribe(&Channel::room_map_view_ps(room))
}

/// Writes the command which unsubscribes from the map view of a room.
///
/// Calls `screeps_api::websocket::commands::unsubscribe`, which does the same as its counterpart
/// with the word `unsubscribe`.
#[verifier::external_body]
pub(crate) fn unsubscribe(room: RoomName) -> (res: String)
    requires
        room.displayable(),
    ensures
        res@ == unsubscribe_text(room),
{
    let room = screeps_api::RoomName { x_coord: room.x_coord, y_coord: room.y_coord };
    commands::unsubscribe(&Channel::room_map_view_ps(room))
}

/// Writes the message which authenticates with a token.
///
/// Calls `screeps_api::websocket::commands::authenticate`, which writes the word `auth` and the
/// token into a JSON array. In it quotation marks, backslashes and control characters are escaped.
#[verifier::external_body]
pub(crate) fn authenticate(token: &str) -> (res: String)
    ensures
        res@ == authenticate_text(token@),
{
    commands::authenticate(token.as_bytes())
}

/// Commands name one room each: two rooms with the same command are the same room, and no command
/// both subscribes to a room and unsubscribes from one.
pub proof fn law_commands_tell_rooms(a: RoomName, b: RoomName)
    ensures
        subscribe_text(a) == subscribe_text(b) ==> a == b,
        unsubscribe_text(a) == unsubscribe_text(b) ==> a == b,
        subscribe_text(a) != unsubscribe_text(b),
{
    reveal_strlit("subscribe roomMap2:");
    reveal_strlit("unsubscribe roomMap2:");
    if subscribe_text(a) == subscribe_text(b) {
        lemma_framed(subscribe_text(a), "subscribe roomMap2:"@, a.text());
        lemma_framed(subscribe_text(b), "subscribe roomMap2:"@, b.text());
        law_names_tell_rooms(a, b);
    }
    if unsubscribe_text(a) == unsubscribe_text(b) {
        lemma_framed(unsubscribe_text(a), "unsubscribe roomMap2:"@, a.text());
        lemma_framed(unsubscribe_text(b), "unsubscribe roomMap2:"@, b.text());
        law_names_tell_rooms(a, b);
    }
    assert(subscribe_text(a)[2] == 's');
    assert(unsubscribe_text(b)[2] == 'u');
}

proof fn lemma_framed(text: Seq<char>, word: Seq<char>, name: Seq<char>)
    requires
        text == framed(word + name),
    ensures
        name == text.subrange(2 + word.len() as int, text.len() - 2),
{
    assert(name =~= text.subrange(2 + word.len() as int, text.len() - 2));
}

/// A token whose characters all stand for themselves in JSON is sent as it is.
pub proof fn law_plain_tokens_are_sent_as_they_are(token: Seq<char>)
    requires
        forall|i: int| 0 <= i < token.len() ==> plain(#[trigger] token[i]),
    ensures
        authenticate_text(token) == framed("auth "@ + token),
{
    lemma_plain(token);
}

proof fn lemma_plain(text: Seq<char>)
    requires
        forall|i: int| 0 <= i < text.len() ==> plain(#[trigger] text[i]),
    ensures
        escaped(text) == text,
    decreases text.len(),
{
    if text.len() > 0 {
        lemma_plain(text.drop_last());
        assert(escaped(text) =~= text.drop_last().push(text.last()));
    }
    assert(escaped(text) =~= text);
}

} // verus!
