//! What is told from what among the texts that speak of rooms.
//!
//! Texts are put together from their parts here, and it is shown that the same parts are found in
//! them.

use vstd::prelude::*;

use crate::command::{escaped, escaped_char, hex, plain};
use crate::far_rooms::{
    all_digits, begins, behind_shard, blank, channel, digits_value, frame_texts, hex_digit,
    hex_number, holds, is_far, is_readable, json_char, json_string, json_strings, north_south,
    number, past_blanks, plain_end, room_of, slash, too_far, BEYOND_ASCII,
};
use crate::room::{decimal, digit, lemma_decimal_digits, RoomName};

verus! {

/// Whether a text consists of spaces, tabs and ends of lines.
pub open spec fn all_blank(text: Seq<char>) -> bool {
    forall|i: int|
        0 <= i < text.len() ==> (#[trigger] text[i]) == ' ' || text[i] == '\t' || text[i] == '\n'
            || text[i] == '\r'
}

/// Whether all characters of a text stand for themselves in a JSON string.
pub open spec fn all_plain(text: Seq<char>) -> bool {
    forall|i: int| 0 <= i < text.len() ==> plain(#[trigger] text[i])
}

/// The way a number is written, with some zeros before it. A number that is not negative may have a
/// sign.
pub open spec fn numeral(n: int, zeros: nat, plus: bool) -> Seq<char> {
    let digits = Seq::new(zeros, |i: int| '0') + decimal(
        if n < 0 {
            (-n) as nat
        } else {
            n as nat
        },
    );
    if n < 0 {
        seq!['-'] + digits
    } else if plus {
        seq!['+'] + digits
    } else {
        digits
    }
}

proof fn lemma_decimal_value(n: nat)
    ensures
        all_digits(decimal(n)),
        digits_value(decimal(n)) == n,
    decreases n,
{
    lemma_decimal_digits(n);
    assert(digit(n % 10) as int == 48 + n % 10);
    assert(decimal(n).last() == digit(n % 10));
    if n >= 10 {
        lemma_decimal_value(n / 10);
        assert(decimal(n).drop_last() =~= decimal(n / 10));
    } else {
        reveal_with_fuel(digits_value, 2);
        assert(decimal(n).drop_last() =~= seq![]);
    }
}

proof fn lemma_zeros(zeros: nat, digits: Seq<char>)
    requires
        all_digits(digits),
    ensures
        all_digits(Seq::new(zeros, |i: int| '0') + digits),
        digits_value(Seq::new(zeros, |i: int| '0') + digits) == digits_value(digits),
    decreases zeros + digits.len(),
{
    let text = Seq::new(zeros, |i: int| '0') + digits;
    if digits.len() > 0 {
        lemma_zeros(zeros, digits.drop_last());
        assert(text.drop_last() =~= Seq::new(zeros, |i: int| '0') + digits.drop_last());
    } else if zeros > 0 {
        lemma_zeros((zeros - 1) as nat, digits);
        assert(text.drop_last() =~= Seq::new((zeros - 1) as nat, |i: int| '0') + digits);
    } else {
        assert(text =~= digits);
    }
}

/// A number that is written down is read back if it is one of 32 bits, and not otherwise.
pub proof fn law_numbers_are_read_back(n: int, zeros: nat, plus: bool)
    ensures
        number(numeral(n, zeros, plus)) == (if i32::MIN <= n <= i32::MAX {
            Some(n)
        } else {
            None
        }),
{
    let magnitude = if n < 0 {
        (-n) as nat
    } else {
        n as nat
    };
    let digits = Seq::new(zeros, |i: int| '0') + decimal(magnitude);
    lemma_decimal_value(magnitude);
    lemma_decimal_digits(magnitude);
    lemma_zeros(zeros, decimal(magnitude));
    if n < 0 || plus {
        assert(numeral(n, zeros, plus).skip(1) =~= digits);
    } else {
        assert('0' <= digits[0] <= '9');
    }
}

proof fn lemma_north_south_at(text: Seq<char>, i: int, n: int)
    requires
        0 <= i <= n < text.len(),
        forall|j: int|
            i <= j < n ==> (#[trigger] text[j]) != 'N' && text[j] != 'n' && text[j] != 'S'
                && text[j] != 's',
        text[n] == 'N' || text[n] == 'n' || text[n] == 'S' || text[n] == 's',
    ensures
        north_south(text, i) == n,
    decreases n - i,
{
    if i < n {
        lemma_north_south_at(text, i + 1, n);
    }
}

proof fn lemma_too_far(a: char, x: Seq<char>, b: char, y: Seq<char>)
    requires
        a == 'E' || a == 'e' || a == 'W' || a == 'w',
        b == 'N' || b == 'n' || b == 'S' || b == 's',
        x.len() > 0,
        forall|i: int|
            0 <= i < x.len() ==> '0' <= (#[trigger] x[i]) <= '9' || x[i] == '-' || x[i] == '+',
    ensures
        too_far(seq![a] + x + seq![b] + y) <==> {
            &&& number(x) is Some
            &&& number(y) is Some
            &&& (a == 'W' || a == 'w') && number(x) == Some(i32::MIN as int) || (b == 'S' || b
                == 's') && number(y) == Some(i32::MIN as int)
        },
{
    let room = seq![a] + x + seq![b] + y;
    let n = 1 + x.len() as int;
    assert forall|j: int| 1 <= j < n implies (#[trigger] room[j]) != 'N' && room[j] != 'n'
        && room[j] != 'S' && room[j] != 's' by {
        assert(room[j] == x[j - 1]);
    }
    assert(room[n] == b);
    lemma_north_south_at(room, 2, n);
    assert(room.subrange(1, n) =~= x);
    assert(room.skip(n + 1) =~= y);
}

proof fn lemma_numeral(n: int, zeros: nat, plus: bool)
    ensures
        numeral(n, zeros, plus).len() > 0,
        forall|i: int|
            0 <= i < numeral(n, zeros, plus).len() ==> '0' <= (#[trigger] numeral(n, zeros, plus)[i])
                <= '9' || numeral(n, zeros, plus)[i] == '-' || numeral(n, zeros, plus)[i] == '+',
{
    lemma_decimal_digits(
        if n < 0 {
            (-n) as nat
        } else {
            n as nat
        },
    );
}

/// A name with two numbers is too far away exactly if both are of 32 bits and one that is negated is
/// the smallest: the first behind the letter for west, or the second behind the letter for south.
pub proof fn law_the_smallest_negated_numbers_are_too_far(
    a: char,
    x: int,
    b: char,
    y: int,
    zeros: nat,
    plus: bool,
)
    requires
        a == 'E' || a == 'e' || a == 'W' || a == 'w',
        b == 'N' || b == 'n' || b == 'S' || b == 's',
    ensures
        too_far(seq![a] + numeral(x, zeros, plus) + seq![b] + numeral(y, zeros, plus)) <==> {
            &&& i32::MIN <= x <= i32::MAX
            &&& i32::MIN <= y <= i32::MAX
            &&& (a == 'W' || a == 'w') && x == i32::MIN || (b == 'S' || b == 's') && y == i32::MIN
        },
{
    lemma_numeral(x, zeros, plus);
    lemma_too_far(a, numeral(x, zeros, plus), b, numeral(y, zeros, plus));
    law_numbers_are_read_back(x, zeros, plus);
    law_numbers_are_read_back(y, zeros, plus);
}

/// No room has a name that is too far away.
pub proof fn law_rooms_are_not_too_far(room: RoomName)
    ensures
        !too_far(room.text()),
{
    let x = if room.x_coord >= 0 {
        room.x_coord as int
    } else {
        -room.x_coord - 1
    };
    let y = if room.y_coord >= 0 {
        room.y_coord as int
    } else {
        -room.y_coord - 1
    };
    let a = if room.x_coord >= 0 {
        'E'
    } else {
        'W'
    };
    let b = if room.y_coord >= 0 {
        'N'
    } else {
        'S'
    };
    law_the_smallest_negated_numbers_are_too_far(a, x, b, y, 0, false);
    assert(room.text() =~= seq![a] + numeral(x, 0, false) + seq![b] + numeral(y, 0, false));
}

proof fn lemma_slash_at(text: Seq<char>, i: int, n: int)
    requires
        0 <= i <= n <= text.len(),
        forall|j: int| i <= j < n ==> (#[trigger] text[j]) != '/',
        n == text.len() || text[n] == '/',
    ensures
        slash(text, i) == n,
    decreases n - i,
{
    if i < n {
        lemma_slash_at(text, i + 1, n);
    }
}

proof fn lemma_behind_shard(shard: Seq<char>, room: Seq<char>)
    requires
        !shard.contains('/'),
    ensures
        !room.contains('/') ==> behind_shard(room) == room,
        behind_shard(shard + seq!['/'] + room) == room,
{
    if !room.contains('/') {
        assert forall|j: int| 0 <= j < room.len() implies (#[trigger] room[j]) != '/' by {
            assert(room.contains(room[j]));
        }
        lemma_slash_at(room, 0, room.len() as int);
    }
    let rest = shard + seq!['/'] + room;
    assert forall|j: int| 0 <= j < shard.len() implies (#[trigger] rest[j]) != '/' by {
        assert(rest[j] == shard[j]);
        assert(shard.contains(shard[j]));
    }
    assert(rest[shard.len() as int] == '/');
    lemma_slash_at(rest, 0, shard.len() as int);
    assert(rest.skip(shard.len() as int + 1) =~= room);
}

/// Whether a text is what the channels of one kind that are about a room begin with.
pub open spec fn room_prefix(prefix: Seq<char>) -> bool {
    prefix == "roomMap2:"@ || prefix == "room:"@ || prefix == "err@room:"@
}

/// The room that a channel is about is what its name has behind the prefix, and behind the shard if
/// there is one.
pub proof fn law_channels_name_their_rooms(prefix: Seq<char>, shard: Seq<char>, room: Seq<char>)
    requires
        room_prefix(prefix),
        !shard.contains('/'),
    ensures
        !room.contains('/') ==> room_of(prefix + room) == Some(room),
        room_of(prefix + (shard + seq!['/'] + room)) == Some(room),
{
    lemma_behind_shard(shard, room);
    lemma_room_of(prefix, room);
    lemma_room_of(prefix, shard + seq!['/'] + room);
}

proof fn lemma_room_of(prefix: Seq<char>, rest: Seq<char>)
    requires
        room_prefix(prefix),
    ensures
        room_of(prefix + rest) == Some(behind_shard(rest)),
{
    reveal_strlit("roomMap2:");
    reveal_strlit("room:");
    reveal_strlit("err@room:");
    let name = prefix + rest;
    assert(name.take(prefix.len() as int) =~= prefix);
    assert(name.skip(prefix.len() as int) =~= rest);
    if prefix == "room:"@ {
        assert(name[4] == ':');
        if begins(name, "roomMap2:"@) {
            assert(name.take(9)[4] == 'M');
        }
    } else if prefix == "err@room:"@ {
        assert(name[0] == 'e');
        if begins(name, "roomMap2:"@) {
            assert(name.take(9)[0] == 'r');
        }
        if begins(name, "room:"@) {
            assert(name.take(5)[0] == 'r');
        }
    }
}

proof fn lemma_past_blanks_at(text: Seq<char>, i: int, n: int)
    requires
        0 <= i <= n <= text.len(),
        forall|j: int| i <= j < n ==> blank(#[trigger] text[j]),
        n == text.len() || !blank(text[n]),
    ensures
        past_blanks(text, i) == n,
    decreases n - i,
{
    if i < n {
        lemma_past_blanks_at(text, i + 1, n);
    }
}

proof fn lemma_plain_end_at(text: Seq<char>, i: int, n: int)
    requires
        0 <= i <= n <= text.len(),
        forall|j: int| i <= j < n ==> plain(#[trigger] text[j]),
        n == text.len() || !plain(text[n]),
    ensures
        plain_end(text, i) == n,
    decreases n - i,
{
    if i < n {
        lemma_plain_end_at(text, i + 1, n);
    }
}

/// The channel of a message that is an array is its first item, whatever whitespace stands before
/// it and whatever follows it.
pub proof fn law_messages_name_their_channels(
    a: Seq<char>,
    b: Seq<char>,
    name: Seq<char>,
    rest: Seq<char>,
)
    requires
        all_blank(a),
        all_blank(b),
        all_plain(name),
    ensures
        channel(a + seq!['['] + b + seq!['"'] + name + seq!['"'] + rest) == Some(name),
{
    let message = a + seq!['['] + b + seq!['"'] + name + seq!['"'] + rest;
    let open = a.len() as int;
    let quote = open + 1 + b.len();
    let end = quote + 1 + name.len();
    assert(forall|j: int| 0 <= j < open ==> #[trigger] message[j] == a[j]);
    assert(message[open] == '[');
    assert(forall|j: int| open < j < quote ==> #[trigger] message[j] == b[j - open - 1]);
    assert(message[quote] == '"');
    assert(forall|j: int| quote < j < end ==> #[trigger] message[j] == name[j - quote - 1]);
    assert(message[end] == '"');
    lemma_past_blanks_at(message, 0, open);
    lemma_past_blanks_at(message, open + 1, quote);
    lemma_plain_end_at(message, quote + 1, end);
    assert(message.subrange(quote + 1, end) =~= name);
}

/// A message about the channel of a room is about one that is too far away exactly if that room is.
pub proof fn law_messages_about_far_rooms_are_far(
    prefix: Seq<char>,
    room: Seq<char>,
    rest: Seq<char>,
)
    requires
        room_prefix(prefix),
        all_plain(room),
        !room.contains('/'),
    ensures
        is_far(seq!['[', '"'] + prefix + room + seq!['"'] + rest) <==> too_far(room),
{
    reveal_strlit("roomMap2:");
    reveal_strlit("room:");
    reveal_strlit("err@room:");
    let none = Seq::<char>::empty();
    law_messages_name_their_channels(none, none, prefix + room, rest);
    law_channels_name_their_rooms(prefix, none, room);
    assert(none + seq!['['] + none + seq!['"'] + (prefix + room) + seq!['"'] + rest =~= seq![
        '[',
        '"',
    ] + prefix + room + seq!['"'] + rest);
}

proof fn lemma_escaped_first(text: Seq<char>)
    requires
        text.len() > 0,
    ensures
        escaped(text) == escaped_char(text[0]) + escaped(text.drop_first()),
    decreases text.len(),
{
    if text.len() == 1 {
        reveal_with_fuel(escaped, 2);
        assert(text.drop_last() =~= seq![]);
        assert(text.drop_first() =~= seq![]);
        assert(escaped(text) =~= escaped_char(text[0]) + escaped(text.drop_first()));
    } else {
        lemma_escaped_first(text.drop_last());
        assert(text.drop_last().drop_first() =~= text.drop_first().drop_last());
        assert(escaped(text) =~= escaped_char(text[0]) + escaped(text.drop_first()));
    }
}

proof fn lemma_hex(d: int)
    requires
        0 <= d < 16,
    ensures
        hex_digit(hex(d)) == Some(d),
{
    assert(hex(d) as int == if d < 10 {
        48 + d
    } else {
        87 + d
    });
}

/// A character that is written in a JSON string is read back.
pub proof fn law_characters_are_read_back(head: Seq<char>, c: char, tail: Seq<char>)
    ensures
        json_char(head + escaped_char(c) + tail, head.len() as int) == Some(
            (c, (head.len() + escaped_char(c).len()) as int),
        ),
        !holds(head + escaped_char(c) + tail, head.len() as int, '"'),
{
    let text = head + escaped_char(c) + tail;
    let i = head.len() as int;
    assert(forall|j: int|
        0 <= j < escaped_char(c).len() ==> text[i + j] == #[trigger] escaped_char(c)[j]);
    assert(escaped_char(c).len() > 0);
    assert(text[i] == escaped_char(c)[0]);
    if escaped_char(c).len() > 1 {
        assert(text[i + 1] == escaped_char(c)[1]);
    }
    if escaped_char(c).len() == 6 {
        lemma_hex(0);
        lemma_hex(c as int / 16);
        lemma_hex(c as int % 16);
        assert(text[i + 2] == escaped_char(c)[2]);
        assert(text[i + 3] == escaped_char(c)[3]);
        assert(text[i + 4] == escaped_char(c)[4]);
        assert(text[i + 5] == escaped_char(c)[5]);
        assert(hex_number(text, i + 2) == Some(c as int));
    }
}

/// A text that is written in a JSON string is read back.
pub proof fn law_strings_are_read_back(
    head: Seq<char>,
    string: Seq<char>,
    tail: Seq<char>,
    before: Seq<char>,
)
    ensures
        json_string(head + escaped(string) + seq!['"'] + tail, head.len() as int, before) == Some(
            (before + string, (head.len() + escaped(string).len() + 1) as int),
        ),
    decreases string.len(),
{
    let text = head + escaped(string) + seq!['"'] + tail;
    if string.len() == 0 {
        assert(text[head.len() as int] == '"');
        assert(before + string =~= before);
    } else {
        let c = string[0];
        let rest = string.drop_first();
        lemma_escaped_first(string);
        law_characters_are_read_back(head, c, escaped(rest) + seq!['"'] + tail);
        assert(text =~= head + escaped_char(c) + (escaped(rest) + seq!['"'] + tail));
        law_strings_are_read_back(head + escaped_char(c), rest, tail, before.push(c));
        assert(text =~= head + escaped_char(c) + escaped(rest) + seq!['"'] + tail);
        assert(before.push(c) + rest =~= before + string);
    }
}

/// A frame of one message carries that message, whatever whitespace stands around it. So it can be
/// read exactly if the message is not about a room that is too far away. With something else behind
/// the message it carries none.
pub proof fn law_single_messages_are_found(
    a: Seq<char>,
    message: Seq<char>,
    b: Seq<char>,
    junk: Seq<char>,
)
    requires
        all_blank(a),
        all_blank(b),
        junk.len() > 0 ==> !all_blank(junk.take(1)),
    ensures
        ({
            let text = seq!['m'] + a + seq!['"'] + escaped(message) + seq!['"'] + (b + junk);
            &&& junk.len() == 0 ==> frame_texts(text) == seq![message]
            &&& junk.len() == 0 ==> (is_readable(text) <==> !is_far(message))
            &&& junk.len() > 0 ==> frame_texts(text).len() == 0 && is_readable(text)
        }),
{
    let head = seq!['m'] + a + seq!['"'];
    let text = head + escaped(message) + seq!['"'] + (b + junk);
    let quote = 1 + a.len() as int;
    let end = head.len() as int + escaped(message).len() + 1;
    assert(text[0] == 'm');
    assert(forall|j: int| 1 <= j < quote ==> #[trigger] text[j] == a[j - 1]);
    assert(text[quote] == '"');
    lemma_past_blanks_at(text, 1, quote);
    law_strings_are_read_back(head, message, b + junk, seq![]);
    assert(Seq::<char>::empty() + message =~= message);
    assert(forall|j: int| end <= j < end + b.len() ==> #[trigger] text[j] == b[j - end]);
    if junk.len() > 0 {
        assert(text[end + b.len()] == junk[0]);
        assert(blank(junk[0]) ==> all_blank(junk.take(1)));
    } else {
        assert(text.len() == end + b.len());
    }
    lemma_past_blanks_at(text, end, end + b.len());
    if junk.len() == 0 {
        assert(frame_texts(text) =~= seq![message]);
        assert(frame_texts(text)[0] == message);
    }
}

/// A message in an array, with whitespace around it.
pub open spec fn item(gap: Seq<char>, message: Seq<char>) -> Seq<char> {
    gap + seq!['"'] + escaped(message) + seq!['"'] + gap
}

/// The messages of an array, with whitespace around each of them.
pub open spec fn items(gap: Seq<char>, messages: Seq<Seq<char>>) -> Seq<char>
    decreases messages.len(),
{
    if messages.len() == 0 {
        gap
    } else if messages.len() == 1 {
        item(gap, messages[0])
    } else {
        item(gap, messages[0]) + seq![','] + items(gap, messages.drop_first())
    }
}

proof fn lemma_item(head: Seq<char>, gap: Seq<char>, message: Seq<char>, more: Seq<char>)
    requires
        all_blank(gap),
        more.len() > 0 ==> !blank(more[0]),
    ensures
        ({
            let text = head + item(gap, message) + more;
            let j = past_blanks(text, head.len() as int);
            &&& holds(text, j, '"')
            &&& json_string(text, j + 1, seq![]) matches Some((string, k)) && string == message
                && past_blanks(text, k) == head.len() + item(gap, message).len()
            &&& more.len() > 0 ==> text[(head.len() + item(gap, message).len()) as int] == more[0]
        }),
{
    let text = head + item(gap, message) + more;
    let i = head.len() as int;
    let quote = i + gap.len();
    let start = head + gap + seq!['"'];
    let k = start.len() as int + escaped(message).len() + 1;
    let end = k + gap.len();
    assert(text =~= start + escaped(message) + seq!['"'] + (gap + more));
    assert(forall|j: int| i <= j < quote ==> #[trigger] text[j] == gap[j - i]);
    assert(text[quote] == '"');
    lemma_past_blanks_at(text, i, quote);
    law_strings_are_read_back(start, message, gap + more, seq![]);
    assert(Seq::<char>::empty() + message =~= message);
    assert(forall|j: int| k <= j < end ==> #[trigger] text[j] == gap[j - k]);
    assert(text.len() == end + more.len());
    assert(more.len() > 0 ==> text[end] == more[0]);
    lemma_past_blanks_at(text, k, end);
}

/// Whether a text does not go on with another item of an array.
pub open spec fn ends_items(tail: Seq<char>) -> bool {
    tail.len() > 0 ==> tail[0] != ',' && tail[0] != '"' && !all_blank(tail.take(1))
}

proof fn lemma_items(
    head: Seq<char>,
    gap: Seq<char>,
    messages: Seq<Seq<char>>,
    tail: Seq<char>,
    before: Seq<Seq<char>>,
)
    requires
        all_blank(gap),
        ends_items(tail),
    ensures
        json_strings(head + items(gap, messages) + tail, head.len() as int, before)
            == before + messages,
    decreases messages.len(),
{
    let text = head + items(gap, messages) + tail;
    let i = head.len() as int;
    if tail.len() > 0 {
        assert(blank(tail[0]) ==> all_blank(tail.take(1)));
    }
    if messages.len() == 0 {
        let end = i + gap.len();
        assert(forall|j: int| i <= j < end ==> #[trigger] text[j] == gap[j - i]);
        assert(text.len() == end + tail.len());
        assert(tail.len() > 0 ==> text[end] == tail[0]);
        lemma_past_blanks_at(text, i, end);
        assert(before + messages =~= before);
    } else if messages.len() == 1 {
        lemma_item(head, gap, messages[0], tail);
        assert(text =~= head + item(gap, messages[0]) + tail);
        assert(before.push(messages[0]) =~= before + messages);
    } else {
        let rest = messages.drop_first();
        let more = seq![','] + items(gap, rest) + tail;
        let next = head + item(gap, messages[0]) + seq![','];
        lemma_item(head, gap, messages[0], more);
        assert(text =~= head + item(gap, messages[0]) + more);
        lemma_items(next, gap, rest, tail, before.push(messages[0]));
        assert(text =~= next + items(gap, rest) + tail);
        assert(before.push(messages[0]) + rest =~= before + messages);
    }
}

/// A frame of an array carries all messages of the array, in order, whatever whitespace stands
/// around them and whatever other than an item follows. So it can be read exactly if none of them is about a room that
/// is too far away.
pub proof fn law_all_messages_are_found(
    a: Seq<char>,
    gap: Seq<char>,
    messages: Seq<Seq<char>>,
    tail: Seq<char>,
)
    requires
        all_blank(a),
        all_blank(gap),
        ends_items(tail),
    ensures
        frame_texts(seq!['a'] + a + seq!['['] + items(gap, messages) + tail)
            == messages,
        is_readable(seq!['a'] + a + seq!['['] + items(gap, messages) + tail) <==> (
        forall|i: int| 0 <= i < messages.len() ==> !is_far(#[trigger] messages[i])),
{
    let head = seq!['a'] + a + seq!['['];
    let text = head + items(gap, messages) + tail;
    let open = 1 + a.len() as int;
    assert(text[0] == 'a');
    assert(forall|j: int| 1 <= j < open ==> #[trigger] text[j] == a[j - 1]);
    assert(text[open] == '[');
    lemma_past_blanks_at(text, 1, open);
    lemma_items(head, gap, messages, tail, seq![]);
    assert(Seq::<Seq<char>>::empty() + messages =~= messages);
    assert(frame_texts(text) == messages);
}

/// What a letter behind a backslash stands for.
pub proof fn law_short_escapes_are_read_back(head: Seq<char>, c: char, tail: Seq<char>)
    ensures
        ({
            let text = head + seq!['\\', c] + tail;
            let i = head.len() as int;
            match c {
                '"' => json_char(text, i) == Some(('"', i + 2)),
                '\\' => json_char(text, i) == Some(('\\', i + 2)),
                '/' => json_char(text, i) == Some(('/', i + 2)),
                'b' => json_char(text, i) == Some(('\u{8}', i + 2)),
                'f' => json_char(text, i) == Some(('\u{c}', i + 2)),
                'n' => json_char(text, i) == Some(('\n', i + 2)),
                'r' => json_char(text, i) == Some(('\r', i + 2)),
                't' => json_char(text, i) == Some(('\t', i + 2)),
                'u' => true,
                _ => json_char(text, i) is None,
            }
        }),
{
    let text = head + seq!['\\', c] + tail;
    assert(text[head.len() as int] == '\\');
    assert(text[head.len() as int + 1] == c);
}

/// A hexadecimal digit in capitals.
pub open spec fn capital_hex(d: int) -> char {
    if d < 10 {
        (48 + d) as char
    } else {
        (55 + d) as char
    }
}

/// Four hexadecimal digits of a number, all in small letters or all in capitals.
pub open spec fn four_digits(n: int, capital: bool) -> Seq<char> {
    if capital {
        seq![
            capital_hex(n / 4096),
            capital_hex(n / 256 % 16),
            capital_hex(n / 16 % 16),
            capital_hex(n % 16),
        ]
    } else {
        seq![hex(n / 4096), hex(n / 256 % 16), hex(n / 16 % 16), hex(n % 16)]
    }
}

proof fn lemma_four_digits(text: Seq<char>, i: int, n: int, capital: bool)
    requires
        0 <= n < 0x1_0000,
        0 <= i,
        i + 4 <= text.len(),
        text.subrange(i, i + 4) == four_digits(n, capital),
    ensures
        hex_number(text, i) == Some(n),
{
    lemma_hex(n / 4096);
    lemma_hex(n / 256 % 16);
    lemma_hex(n / 16 % 16);
    lemma_hex(n % 16);
    assert(forall|d: int|
        0 <= d < 16 ==> #[trigger] capital_hex(d) as int == if d < 10 {
            48 + d
        } else {
            55 + d
        });
    assert(text[i] == text.subrange(i, i + 4)[0]);
    assert(text[i + 1] == text.subrange(i, i + 4)[1]);
    assert(text[i + 2] == text.subrange(i, i + 4)[2]);
    assert(text[i + 3] == text.subrange(i, i + 4)[3]);
}

/// A character of ASCII is read back from its Unicode escape. One beyond ASCII takes one escape or,
/// with a first half and a second half, two of them.
pub proof fn law_unicode_escapes_are_read_back(
    head: Seq<char>,
    n: int,
    low: int,
    capital: bool,
    tail: Seq<char>,
)
    requires
        0 <= n < 0x1_0000,
        0 <= low < 0x1_0000,
    ensures
        ({
            let i = head.len() as int;
            let one = head + seq!['\\', 'u'] + four_digits(n, capital);
            let two = one + seq!['\\', 'u'] + four_digits(low, capital);
            &&& n < 0x80 ==> json_char(one + tail, i) == Some((n as char, i + 6))
            &&& 0x80 <= n && !(0xd800 <= n <= 0xdfff) ==> json_char(one + tail, i) == Some(
                (BEYOND_ASCII, i + 6),
            )
            &&& 0xd800 <= n < 0xdc00 && 0xdc00 <= low <= 0xdfff ==> json_char(two + tail, i)
                == Some((BEYOND_ASCII, i + 12))
            &&& 0xd800 <= n < 0xdc00 && !(0xdc00 <= low <= 0xdfff) ==> json_char(
                two + tail,
                i,
            ) is None
            &&& 0xdc00 <= n <= 0xdfff ==> json_char(one + tail, i) is None
        }),
{
    let i = head.len() as int;
    let one = head + seq!['\\', 'u'] + four_digits(n, capital);
    let two = one + seq!['\\', 'u'] + four_digits(low, capital);
    assert((one + tail).subrange(i + 2, i + 6) =~= four_digits(n, capital));
    lemma_four_digits(one + tail, i + 2, n, capital);
    assert((one + tail)[i] == '\\');
    assert((one + tail)[i + 1] == 'u');
    assert((two + tail).subrange(i + 2, i + 6) =~= four_digits(n, capital));
    lemma_four_digits(two + tail, i + 2, n, capital);
    assert((two + tail).subrange(i + 8, i + 12) =~= four_digits(low, capital));
    lemma_four_digits(two + tail, i + 8, low, capital);
    assert((two + tail)[i] == '\\');
    assert((two + tail)[i + 1] == 'u');
    assert((two + tail)[i + 6] == '\\');
    assert((two + tail)[i + 7] == 'u');
}

} // verus!
