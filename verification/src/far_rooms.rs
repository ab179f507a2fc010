//! Texts that speak of a room which is too far away.
//!
//! West and south coordinates are written as distances, and a distance is negated when a room name
//! is read. The smallest coordinate cannot be negated. A frame in which a channel has such a room
//! name has to be told from all others before it is read.

use vstd::prelude::*;

verus! {

/// Whether a text has a character at an index.
pub open spec fn holds(text: Seq<char>, i: int, c: char) -> bool {
    0 <= i < text.len() && text[i] == c
}

/// Whether a character is whitespace in JSON.
pub open spec fn blank(c: char) -> bool {
    c == ' ' || c == '\n' || c == '\t' || c == '\r'
}

/// The first index from a given one on that has no whitespace.
pub open spec fn past_blanks(text: Seq<char>, i: int) -> int
    decreases text.len() - i,
{
    if 0 <= i < text.len() && blank(text[i]) {
        past_blanks(text, i + 1)
    } else {
        i
    }
}

/// The value of a hexadecimal digit.
pub open spec fn hex_digit(c: char) -> Option<int> {
    if '0' <= c <= '9' {
        Some(c as int - '0' as int)
    } else if 'a' <= c <= 'f' {
        Some(c as int - 'a' as int + 10)
    } else if 'A' <= c <= 'F' {
        Some(c as int - 'A' as int + 10)
    } else {
        None
    }
}

/// The number that four hexadecimal digits from an index on stand for.
pub open spec fn hex_number(text: Seq<char>, i: int) -> Option<int> {
    if 0 <= i && i + 4 <= text.len() {
        match (
            hex_digit(text[i]),
            hex_digit(text[i + 1]),
            hex_digit(text[i + 2]),
            hex_digit(text[i + 3]),
        ) {
            (Some(a), Some(b), Some(c), Some(d)) => Some(((a * 16 + b) * 16 + c) * 16 + d),
            _ => None,
        }
    } else {
        None
    }
}

/// What stands for any escaped character beyond ASCII. None of them occurs in a room name.
pub const BEYOND_ASCII: char = '\u{fffd}';

/// What a Unicode escape stands for, and the index behind it. The digits of the escape begin at an
/// index. Characters beyond the basic plane take two escapes.
pub open spec fn unicode_escape(text: Seq<char>, i: int) -> Option<(char, int)> {
    match hex_number(text, i) {
        None => None,
        Some(n) => if n < 0x80 {
            Some((n as char, i + 4))
        } else if n < 0xd800 || n > 0xdfff {
            Some((BEYOND_ASCII, i + 4))
        } else if n < 0xdc00 && holds(text, i + 4, '\\') && holds(text, i + 5, 'u') {
            match hex_number(text, i + 6) {
                Some(low) => if 0xdc00 <= low <= 0xdfff {
                    Some((BEYOND_ASCII, i + 10))
                } else {
                    None
                },
                None => None,
            }
        } else {
            None
        },
    }
}

/// The character that a letter stands for behind a backslash.
pub open spec fn short_escape(c: char) -> Option<char> {
    match c {
        '"' => Some('"'),
        '\\' => Some('\\'),
        '/' => Some('/'),
        'b' => Some('\u{8}'),
        'f' => Some('\u{c}'),
        'n' => Some('\n'),
        'r' => Some('\r'),
        't' => Some('\t'),
        _ => None,
    }
}

/// The character that is written at an index of a JSON string, and the index behind it.
pub open spec fn json_char(text: Seq<char>, i: int) -> Option<(char, int)> {
    if !(0 <= i < text.len() && text[i] >= ' ') {
        None
    } else if text[i] != '\\' {
        Some((text[i], i + 1))
    } else if i + 1 >= text.len() {
        None
    } else if text[i + 1] == 'u' {
        unicode_escape(text, i + 2)
    } else {
        match short_escape(text[i + 1]) {
            Some(c) => Some((c, i + 2)),
            None => None,
        }
    }
}

/// What a JSON string says from an index on, added to what it says before, and the index behind its
/// closing quotation mark.
pub open spec fn json_string(text: Seq<char>, i: int, before: Seq<char>) -> Option<
    (Seq<char>, int),
>
    decreases text.len() - i,
{
    if holds(text, i, '"') {
        Some((before, i + 1))
    } else {
        match json_char(text, i) {
            Some((c, j)) => json_string(text, j, before.push(c)),
            None => None,
        }
    }
}

/// Whitespace is passed over forwards.
pub proof fn lemma_past_blanks(text: Seq<char>, i: int)
    ensures
        past_blanks(text, i) >= i,
        i <= text.len() ==> past_blanks(text, i) <= text.len(),
    decreases text.len() - i,
{
    if 0 <= i < text.len() && blank(text[i]) {
        lemma_past_blanks(text, i + 1);
    }
}

/// A JSON string is read forwards.
pub proof fn lemma_json_string(text: Seq<char>, i: int, before: Seq<char>)
    ensures
        json_string(text, i, before) matches Some((_, k)) ==> i < k <= text.len(),
    decreases text.len() - i,
{
    if !holds(text, i, '"') {
        if let Some((c, j)) = json_char(text, i) {
            lemma_json_string(text, j, before.push(c));
        }
    }
}

/// The strings of a JSON array from an index on, added to those before, up to where the text is no
/// array of strings any more.
pub open spec fn json_strings(text: Seq<char>, i: int, before: Seq<Seq<char>>) -> Seq<Seq<char>>
    decreases text.len() - i,
{
    let j = past_blanks(text, i);
    if holds(text, j, '"') {
        match json_string(text, j + 1, seq![]) {
            Some((string, k)) => {
                proof {
                    lemma_past_blanks(text, i);
                    lemma_json_string(text, j + 1, seq![]);
                    lemma_past_blanks(text, k);
                }
                if holds(text, past_blanks(text, k), ',') {
                    json_strings(text, past_blanks(text, k) + 1, before.push(string))
                } else {
                    before.push(string)
                }
            },
            None => before,
        }
    } else {
        before
    }
}

/// The messages that a frame carries, as texts: one if it is a JSON string, or those of a JSON
/// array up to where that is malformed. Other frames carry none.
pub open spec fn frame_texts(text: Seq<char>) -> Seq<Seq<char>> {
    if holds(text, 0, 'm') && holds(text, past_blanks(text, 1), '"') {
        match json_string(text, past_blanks(text, 1) + 1, seq![]) {
            Some((string, k)) => if past_blanks(text, k) == text.len() {
                seq![string]
            } else {
                seq![]
            },
            None => seq![],
        }
    } else if holds(text, 0, 'a') && holds(text, past_blanks(text, 1), '[') {
        json_strings(text, past_blanks(text, 1) + 1, seq![])
    } else {
        seq![]
    }
}

/// The first index from a given one on whose character ends a JSON string or is not written as
/// itself in one.
pub open spec fn plain_end(text: Seq<char>, i: int) -> int
    decreases text.len() - i,
{
    if 0 <= i < text.len() && text[i] >= ' ' && text[i] != '"' && text[i] != '\\' {
        plain_end(text, i + 1)
    } else {
        i
    }
}

/// The channel that a message is about: it is an array whose first item is the name of the channel,
/// written without escapes.
pub open spec fn channel(message: Seq<char>) -> Option<Seq<char>> {
    let open = past_blanks(message, 0);
    let quote = past_blanks(message, open + 1);
    let end = plain_end(message, quote + 1);
    if holds(message, open, '[') && holds(message, quote, '"') && holds(message, end, '"') {
        Some(message.subrange(quote + 1, end))
    } else {
        None
    }
}

/// The first index from a given one on that has a slash, or the length of the text.
pub open spec fn slash(text: Seq<char>, i: int) -> int
    decreases text.len() - i,
{
    if 0 <= i < text.len() && text[i] != '/' {
        slash(text, i + 1)
    } else {
        i
    }
}

/// The room in the rest of the name of a channel: what is behind the name of a shard and a slash,
/// or everything if there is no slash.
pub open spec fn behind_shard(rest: Seq<char>) -> Seq<char> {
    if slash(rest, 0) < rest.len() {
        rest.skip(slash(rest, 0) + 1)
    } else {
        rest
    }
}

/// Whether a text begins with another.
pub open spec fn begins(text: Seq<char>, start: Seq<char>) -> bool {
    start.len() <= text.len() && text.take(start.len() as int) == start
}

/// The room that a channel is about.
pub open spec fn room_of(channel: Seq<char>) -> Option<Seq<char>> {
    if begins(channel, "roomMap2:"@) {
        Some(behind_shard(channel.skip(9)))
    } else if begins(channel, "room:"@) {
        Some(behind_shard(channel.skip(5)))
    } else if begins(channel, "err@room:"@) {
        Some(behind_shard(channel.skip(9)))
    } else {
        None
    }
}

/// Whether a text consists of digits.
pub open spec fn all_digits(text: Seq<char>) -> bool {
    forall|i: int| 0 <= i < text.len() ==> '0' <= #[trigger] text[i] <= '9'
}

/// The number that digits stand for.
pub open spec fn digits_value(text: Seq<char>) -> int
    decreases text.len(),
{
    if text.len() == 0 {
        0
    } else {
        digits_value(text.drop_last()) * 10 + (text.last() as int - '0' as int)
    }
}

/// A number with or without a sign, if it is one of 32 bits.
pub open spec fn number(text: Seq<char>) -> Option<int> {
    let negative = text.len() > 0 && text[0] == '-';
    let digits = if text.len() > 0 && (text[0] == '-' || text[0] == '+') {
        text.skip(1)
    } else {
        text
    };
    let value = if negative {
        -digits_value(digits)
    } else {
        digits_value(digits)
    };
    if digits.len() > 0 && all_digits(digits) && i32::MIN <= value <= i32::MAX {
        Some(value)
    } else {
        None
    }
}

/// The first index from a given one on that has the letter for north or south, or the length of the
/// text.
pub open spec fn north_south(text: Seq<char>, i: int) -> int
    decreases text.len() - i,
{
    if 0 <= i < text.len() && !(text[i] == 'N' || text[i] == 'n' || text[i] == 'S' || text[i]
        == 's') {
        north_south(text, i + 1)
    } else {
        i
    }
}

/// Whether a text is a room name with a coordinate that is negated and is the smallest. Between the
/// letters at least one character is not looked at for a letter.
pub open spec fn too_far(room: Seq<char>) -> bool {
    let n = north_south(room, 2);
    let east = holds(room, 0, 'E') || holds(room, 0, 'e');
    let west = holds(room, 0, 'W') || holds(room, 0, 'w');
    let south = holds(room, n, 'S') || holds(room, n, 's');
    &&& east || west
    &&& n < room.len()
    &&& number(room.subrange(1, n)) matches Some(x) && number(room.skip(n + 1)) matches Some(y)
        && (west && x == i32::MIN || south && y == i32::MIN)
}

/// Whether a message is about a channel of a room that is too far away.
pub open spec fn is_far(message: Seq<char>) -> bool {
    channel(message) matches Some(channel) && room_of(channel) matches Some(room) && too_far(room)
}

/// Whether a text can be read as a frame: none of the messages that it carries is about a channel
/// of a room that is too far away.
pub open spec fn is_readable(text: Seq<char>) -> bool {
    forall|i: int| 0 <= i < frame_texts(text).len() ==> !is_far(#[trigger] frame_texts(text)[i])
}

fn char_is(text: &Vec<char>, i: usize, c: char) -> (res: bool)
    ensures
        res == holds(text@, i as int, c),
{
    i < text.len() && text[i] == c
}

fn skip_blanks(text: &Vec<char>, from: usize) -> (res: usize)
    requires
        from <= text.len(),
    ensures
        res == past_blanks(text@, from as int),
        from <= res <= text.len(),
{
    let mut i: usize = from;
    while i < text.len() && (text[i] == ' ' || text[i] == '\n' || text[i] == '\t' || text[i]
        == '\r')
        invariant
            from <= i <= text.len(),
            past_blanks(text@, from as int) == past_blanks(text@, i as int),
        decreases text.len() - i,
    {
        i += 1;
    }
    i
}

fn read_hex_digit(c: char) -> (res: Option<u32>)
    ensures
        match res {
            Some(value) => hex_digit(c) == Some(value as int) && value < 16,
            None => hex_digit(c) is None,
        },
{
    let code: u32 = c as u32;
    if '0' <= c && c <= '9' {
        Some(code - 48)
    } else if 'a' <= c && c <= 'f' {
        Some(code - 87)
    } else if 'A' <= c && c <= 'F' {
        Some(code - 55)
    } else {
        None
    }
}

fn read_hex_number(text: &Vec<char>, i: usize) -> (res: Option<u32>)
    ensures
        match res {
            Some(value) => hex_number(text@, i as int) == Some(value as int) && i + 4
                <= text.len(),
            None => hex_number(text@, i as int) is None,
        },
{
    if i > text.len() || text.len() - i < 4 {
        return None;
    }
    match (
        read_hex_digit(text[i]),
        read_hex_digit(text[i + 1]),
        read_hex_digit(text[i + 2]),
        read_hex_digit(text[i + 3]),
    ) {
        (Some(a), Some(b), Some(c), Some(d)) => Some(((a * 16 + b) * 16 + c) * 16 + d),
        _ => None,
    }
}

fn read_unicode_escape(text: &Vec<char>, i: usize) -> (res: Option<(char, usize)>)
    ensures
        match res {
            Some((c, j)) => unicode_escape(text@, i as int) == Some((c, j as int)) && i < j
                <= text.len(),
            None => unicode_escape(text@, i as int) is None,
        },
{
    let n: u32 = match read_hex_number(text, i) {
        Some(n) => n,
        None => {
            return None;
        },
    };
    if n < 0x80 {
        Some((n as u8 as char, i + 4))
    } else if n < 0xd800 || n > 0xdfff {
        Some((BEYOND_ASCII, i + 4))
    } else if n < 0xdc00 && char_is(text, i + 4, '\\') && char_is(text, i + 5, 'u') {
        match read_hex_number(text, i + 6) {
            Some(low) => if 0xdc00 <= low && low <= 0xdfff {
                Some((BEYOND_ASCII, i + 10))
            } else {
                None
            },
            None => None,
        }
    } else {
        None
    }
}

fn read_short_escape(c: char) -> (res: Option<char>)
    ensures
        res == short_escape(c),
{
    match c {
        '"' => Some('"'),
        '\\' => Some('\\'),
        '/' => Some('/'),
        'b' => Some('\u{8}'),
        'f' => Some('\u{c}'),
        'n' => Some('\n'),
        'r' => Some('\r'),
        't' => Some('\t'),
        _ => None,
    }
}

fn read_json_char(text: &Vec<char>, i: usize) -> (res: Option<(char, usize)>)
    ensures
        match res {
            Some((c, j)) => json_char(text@, i as int) == Some((c, j as int)) && i < j
                <= text.len(),
            None => json_char(text@, i as int) is None,
        },
{
    if !(i < text.len() && text[i] >= ' ') {
        None
    } else if text[i] != '\\' {
        Some((text[i], i + 1))
    } else if i + 1 >= text.len() {
        None
    } else if text[i + 1] == 'u' {
        read_unicode_escape(text, i + 2)
    } else {
        match read_short_escape(text[i + 1]) {
            Some(c) => Some((c, i + 2)),
            None => None,
        }
    }
}

fn read_json_string(text: &Vec<char>, from: usize) -> (res: Option<(Vec<char>, usize)>)
    ensures
        match res {
            Some((string, k)) => json_string(text@, from as int, seq![]) == Some(
                (string@, k as int),
            ) && from < k <= text.len(),
            None => json_string(text@, from as int, seq![]) is None,
        },
{
    let mut string: Vec<char> = Vec::new();
    let mut i: usize = from;
    loop
        invariant
            from <= i,
            json_string(text@, from as int, seq![]) == json_string(text@, i as int, string@),
        decreases text.len() - i,
    {
        if char_is(text, i, '"') {
            return Some((string, i + 1));
        }
        match read_json_char(text, i) {
            Some((c, j)) => {
                string.push(c);
                i = j;
            },
            None => {
                return None;
            },
        }
    }
}

fn find_plain_end(text: &Vec<char>, from: usize) -> (res: usize)
    requires
        from <= text.len(),
    ensures
        res == plain_end(text@, from as int),
        from <= res <= text.len(),
{
    let mut i: usize = from;
    while i < text.len() && text[i] >= ' ' && text[i] != '"' && text[i] != '\\'
        invariant
            from <= i <= text.len(),
            plain_end(text@, from as int) == plain_end(text@, i as int),
        decreases text.len() - i,
    {
        i += 1;
    }
    i
}

fn find_slash(text: &Vec<char>, from: usize) -> (res: usize)
    requires
        from <= text.len(),
    ensures
        res == slash(text@, from as int),
        from <= res <= text.len(),
{
    let mut i: usize = from;
    while i < text.len() && text[i] != '/'
        invariant
            from <= i <= text.len(),
            slash(text@, from as int) == slash(text@, i as int),
        decreases text.len() - i,
    {
        i += 1;
    }
    i
}

fn find_north_south(text: &Vec<char>, from: usize) -> (res: usize)
    requires
        from <= text.len(),
    ensures
        res == north_south(text@, from as int),
        from <= res <= text.len(),
{
    let mut i: usize = from;
    while i < text.len() && !(text[i] == 'N' || text[i] == 'n' || text[i] == 'S' || text[i] == 's')
        invariant
            from <= i <= text.len(),
            north_south(text@, from as int) == north_south(text@, i as int),
        decreases text.len() - i,
    {
        i += 1;
    }
    i
}

/// A part of a text.
fn part(text: &Vec<char>, from: usize, to: usize) -> (res: Vec<char>)
    requires
        from <= to <= text.len(),
    ensures
        res@ == text@.subrange(from as int, to as int),
{
    let mut res: Vec<char> = Vec::new();
    let mut i: usize = from;
    while i < to
        invariant
            from <= i <= to <= text.len(),
            res@ == text@.subrange(from as int, i as int),
        decreases to - i,
    {
        res.push(text[i]);
        i += 1;
        assert(res@ =~= text@.subrange(from as int, i as int));
    }
    res
}

/// The characters of a text.
pub fn characters(text: &str) -> (res: Vec<char>)
    ensures
        res@ == text@,
{
    let mut characters: Vec<char> = Vec::new();
    for c in walk: text.chars()
        invariant
            walk.seq() == text@,
            characters@ == text@.take(walk.index()),
    {
        characters.push(c);
        assert(text@.take(walk.index() + 1) =~= text@.take(walk.index()).push(c));
    }
    assert(text@.take(text@.len() as int) =~= text@);
    characters
}

fn begins_with(text: &Vec<char>, start: &str) -> (res: bool)
    ensures
        res == begins(text@, start@),
{
    let letters = characters(start);
    if letters.len() > text.len() {
        return false;
    }
    let mut i: usize = 0;
    while i < letters.len()
        invariant
            letters@ == start@,
            i <= letters.len() <= text.len(),
            forall|j: int| 0 <= j < i ==> text@[j] == letters@[j],
        decreases letters.len() - i,
    {
        if text[i] != letters[i] {
            assert(text@.take(letters.len() as int)[i as int] != letters@[i as int]);
            return false;
        }
        i += 1;
    }
    assert(text@.take(letters.len() as int) =~= letters@);
    true
}

proof fn lemma_digits_grow(text: Seq<char>, n: int)
    requires
        0 <= n <= text.len(),
        all_digits(text),
    ensures
        0 <= digits_value(text.take(n)) <= digits_value(text),
    decreases text.len(),
{
    let less = text.drop_last();
    if n < text.len() {
        lemma_digits_grow(less, n);
        assert(less.take(n) =~= text.take(n));
    } else if n > 0 {
        lemma_digits_grow(less, n - 1);
        assert(less.take(n - 1) =~= less);
        assert(text.take(n) =~= text);
    } else {
        assert(text.take(0) =~= text);
    }
}

/// The value of digits, unless it is greater than 2147483648.
fn read_digits(text: &Vec<char>) -> (res: Option<u64>)
    ensures
        match res {
            Some(value) => all_digits(text@) && value == digits_value(text@) && value
                <= 0x8000_0000,
            None => !all_digits(text@) || digits_value(text@) > 0x8000_0000,
        },
{
    let mut value: u64 = 0;
    let mut i: usize = 0;
    while i < text.len()
        invariant
            i <= text.len(),
            value <= 0x8000_0000,
            all_digits(text@.take(i as int)),
            value == digits_value(text@.take(i as int)),
        decreases text.len() - i,
    {
        if !('0' <= text[i] && text[i] <= '9') {
            return None;
        }
        let digit: u64 = text[i] as u32 as u64 - 48;
        value = value * 10 + digit;
        assert(text@.take(i + 1).drop_last() =~= text@.take(i as int));
        assert(all_digits(text@.take(i + 1))) by {
            assert forall|j: int| 0 <= j < i + 1 implies '0' <= #[trigger] text@.take(i + 1)[j]
                <= '9' by {
                if j < i {
                    assert(text@.take(i as int)[j] == text@[j]);
                }
            }
        }
        i += 1;
        if value > 0x8000_0000 {
            proof {
                if all_digits(text@) {
                    lemma_digits_grow(text@, i as int);
                }
            }
            return None;
        }
    }
    assert(text@.take(i as int) =~= text@);
    Some(value)
}

/// Reads a number with or without a sign, if it is one of 32 bits.
fn read_number(text: &Vec<char>) -> (res: Option<i64>)
    ensures
        match res {
            Some(value) => number(text@) == Some(value as int),
            None => number(text@) is None,
        },
{
    let negative = char_is(text, 0, '-');
    let digits = if negative || char_is(text, 0, '+') {
        part(text, 1, text.len())
    } else {
        part(text, 0, text.len())
    };
    proof {
        assert(text@.subrange(0, text@.len() as int) =~= text@);
        if text@.len() > 0 {
            assert(text@.subrange(1, text@.len() as int) =~= text@.skip(1));
        }
        if all_digits(digits@) {
            lemma_digits_grow(digits@, 0);
        }
    }
    if digits.len() == 0 {
        return None;
    }
    match read_digits(&digits) {
        Some(value) => if negative {
            Some(-(value as i64))
        } else if value < 0x8000_0000 {
            Some(value as i64)
        } else {
            None
        },
        None => None,
    }
}

fn is_too_far(room: &Vec<char>) -> (res: bool)
    ensures
        res == too_far(room@),
{
    let east = char_is(room, 0, 'E') || char_is(room, 0, 'e');
    let west = char_is(room, 0, 'W') || char_is(room, 0, 'w');
    if !(east || west) || room.len() < 2 {
        return false;
    }
    let n = find_north_south(room, 2);
    if n >= room.len() {
        return false;
    }
    let south = char_is(room, n, 'S') || char_is(room, n, 's');
    assert(room@.skip(n + 1) =~= room@.subrange(n + 1, room@.len() as int));
    match (read_number(&part(room, 1, n)), read_number(&part(room, n + 1, room.len()))) {
        (Some(x), Some(y)) => (west && x == -0x8000_0000) || (south && y == -0x8000_0000),
        _ => false,
    }
}

/// Whether the room behind a prefix and the name of a shard is too far away.
fn is_too_far_behind(channel: &Vec<char>, prefix: usize) -> (res: bool)
    requires
        prefix <= channel.len(),
    ensures
        res == too_far(behind_shard(channel@.skip(prefix as int))),
{
    let rest = part(channel, prefix, channel.len());
    assert(rest@ =~= channel@.skip(prefix as int));
    let k = find_slash(&rest, 0);
    if k < rest.len() {
        assert(rest@.skip(k + 1) =~= rest@.subrange(k + 1, rest@.len() as int));
        is_too_far(&part(&rest, k + 1, rest.len()))
    } else {
        is_too_far(&rest)
    }
}

/// Whether a message is about a channel of a room that is too far away.
fn speaks_of_far_room(message: &Vec<char>) -> (res: bool)
    ensures
        res == is_far(message@),
{
    let open = skip_blanks(message, 0);
    if !char_is(message, open, '[') {
        return false;
    }
    let quote = skip_blanks(message, open + 1);
    if !char_is(message, quote, '"') {
        return false;
    }
    let end = find_plain_end(message, quote + 1);
    if !char_is(message, end, '"') {
        return false;
    }
    let channel = part(message, quote + 1, end);
    proof {
        reveal_strlit("roomMap2:");
        reveal_strlit("room:");
        reveal_strlit("err@room:");
    }
    if begins_with(&channel, "roomMap2:") {
        is_too_far_behind(&channel, 9)
    } else if begins_with(&channel, "room:") {
        is_too_far_behind(&channel, 5)
    } else if begins_with(&channel, "err@room:") {
        is_too_far_behind(&channel, 9)
    } else {
        false
    }
}

proof fn lemma_json_strings_grow(text: Seq<char>, i: int, before: Seq<Seq<char>>)
    ensures
        before.len() <= json_strings(text, i, before).len(),
        json_strings(text, i, before).take(before.len() as int) == before,
    decreases text.len() - i,
{
    let j = past_blanks(text, i);
    assert(before.take(before.len() as int) =~= before);
    if holds(text, j, '"') {
        if let Some((string, k)) = json_string(text, j + 1, seq![]) {
            lemma_past_blanks(text, i);
            lemma_json_string(text, j + 1, seq![]);
            lemma_past_blanks(text, k);
            let more = before.push(string);
            let next = past_blanks(text, k) + 1;
            assert(more.take(before.len() as int) =~= before);
            if holds(text, past_blanks(text, k), ',') {
                lemma_json_strings_grow(text, next, more);
                assert(json_strings(text, next, more).take(before.len() as int)
                    =~= json_strings(text, next, more).take(more.len() as int).take(
                    before.len() as int,
                ));
            }
        }
    }
}

/// Whether a string of a JSON array is a message about a channel of a room that is too far away.
fn array_speaks_of_far_room(text: &Vec<char>, from: usize) -> (res: bool)
    requires
        from <= text.len(),
    ensures
        res == exists|i: int|
            0 <= i < json_strings(text@, from as int, seq![]).len() && is_far(
                #[trigger] json_strings(text@, from as int, seq![])[i],
            ),
{
    let ghost all = json_strings(text@, from as int, seq![]);
    let ghost mut before: Seq<Seq<char>> = seq![];
    let mut i: usize = from;
    loop
        invariant
            from <= i <= text.len(),
            all == json_strings(text@, from as int, seq![]),
            all == json_strings(text@, i as int, before),
            forall|j: int| 0 <= j < before.len() ==> !is_far(#[trigger] before[j]),
        decreases text.len() - i,
    {
        let quote = skip_blanks(text, i);
        if !char_is(text, quote, '"') {
            return false;
        }
        match read_json_string(text, quote + 1) {
            Some((message, k)) => {
                let ghost more = before.push(message@);
                let next = skip_blanks(text, k);
                let go_on = char_is(text, next, ',');
                if speaks_of_far_room(&message) {
                    proof {
                        if go_on {
                            lemma_json_strings_grow(text@, next + 1, more);
                            assert(all.take(more.len() as int)[before.len() as int] == message@);
                        }
                        assert(all[before.len() as int] == message@);
                    }
                    return true;
                }
                if !go_on {
                    return false;
                }
                proof {
                    before = more;
                }
                i = next + 1;
            },
            None => {
                return false;
            },
        }
    }
}

/// Whether a text can be read as a frame.
pub fn readable(text: &str) -> (res: bool)
    ensures
        res == is_readable(text@),
{
    let text = characters(text);
    if char_is(&text, 0, 'm') {
        let quote = skip_blanks(&text, 1);
        if char_is(&text, quote, '"') {
            if let Some((message, k)) = read_json_string(&text, quote + 1) {
                if skip_blanks(&text, k) == text.len() {
                    assert(frame_texts(text@)[0] == message@);
                    return !speaks_of_far_room(&message);
                }
            }
        }
        true
    } else if char_is(&text, 0, 'a') {
        let open = skip_blanks(&text, 1);
        if !char_is(&text, open, '[') {
            return true;
        }
        assert(frame_texts(text@) == json_strings(text@, open + 1, seq![]));
        !array_speaks_of_far_room(&text, open + 1)
    } else {
        true
    }
}

/// A frame that carries no messages can always be read.
pub proof fn law_frames_without_messages_are_readable(text: Seq<char>)
    requires
        !holds(text, 0, 'm') && !holds(text, 0, 'a'),
    ensures
        is_readable(text),
{
}

/// A message that is no array, such as one about a token, is never in the way of reading.
pub proof fn law_only_channels_are_too_far(message: Seq<char>)
    requires
        is_far(message),
    ensures
        holds(message, past_blanks(message, 0), '['),
        channel(message) matches Some(channel) && (begins(channel, "roomMap2:"@) || begins(
            channel,
            "room:"@,
        ) || begins(channel, "err@room:"@)),
{
}

} // verus!
