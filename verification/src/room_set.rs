//! Sets of rooms.

use std::collections::HashSet;

use vstd::prelude::*;

use crate::room::RoomName;

verus! {

broadcast use vstd::std_specs::hash::group_hash_axioms;

/// The number a room is filed under: its coordinates, moved up to start at zero, as two digits in
/// base 2^32.
pub open spec fn room_key(room: RoomName) -> u64 {
    ((room.x_coord + 0x8000_0000) * 0x1_0000_0000 + (room.y_coord + 0x8000_0000)) as u64
}

proof fn lemma_room_key(room: RoomName)
    ensures
        room_key(room) == (room.x_coord + 0x8000_0000) * 0x1_0000_0000 + (room.y_coord
            + 0x8000_0000),
        room_key(room) / 0x1_0000_0000 == room.x_coord + 0x8000_0000,
        room_key(room) % 0x1_0000_0000 == room.y_coord + 0x8000_0000,
{
}

/// Every number is the key of exactly one room.
proof fn lemma_key_room(key: u64)
    ensures
        room_key(key_room(key)) == key,
        forall|room: RoomName| #[trigger] room_key(room) == key ==> room == key_room(key),
{
    lemma_room_key(key_room(key));
    assert forall|room: RoomName| #[trigger] room_key(room) == key implies room == key_room(
        key,
    ) by {
        lemma_room_key(room);
    }
}

/// The room filed under a number.
pub open spec fn key_room(key: u64) -> RoomName {
    RoomName {
        x_coord: (key / 0x1_0000_0000 - 0x8000_0000) as i32,
        y_coord: (key % 0x1_0000_0000 - 0x8000_0000) as i32,
    }
}

fn to_key(room: RoomName) -> (res: u64)
    ensures
        res == room_key(room),
{
    let x: u64 = (room.x_coord as i64 + 0x8000_0000) as u64;
    let y: u64 = (room.y_coord as i64 + 0x8000_0000) as u64;
    x * 0x1_0000_0000 + y
}

fn to_room(key: u64) -> (res: RoomName)
    ensures
        res == key_room(key),
{
    let x: u64 = key / 0x1_0000_0000;
    let y: u64 = key % 0x1_0000_0000;
    RoomName { x_coord: (x as i64 - 0x8000_0000) as i32, y_coord: (y as i64 - 0x8000_0000) as i32 }
}

proof fn lemma_push_contains<A>(s: Seq<A>, last: A, x: A)
    ensures
        s.push(last).contains(x) <==> s.contains(x) || x == last,
{
    let t = s.push(last);
    if s.contains(x) {
        let i = choose|i: int| 0 <= i < s.len() && s[i] == x;
        assert(t[i] == x);
    }
    assert(t[s.len() as int] == last);
}

/// Whether a list of rooms holds a room.
pub fn lists(rooms: &Vec<RoomName>, room: RoomName) -> (res: bool)
    ensures
        res == rooms@.contains(room),
{
    let mut i: usize = 0;
    while i < rooms.len()
        invariant
            i <= rooms.len(),
            forall|j: int| 0 <= j < i ==> rooms@[j] != room,
        decreases rooms.len() - i,
    {
        if rooms[i] == room {
            return true;
        }
        i += 1;
    }
    false
}

/// A set of rooms.
pub struct RoomSet {
    keys: HashSet<u64>,
}

impl View for RoomSet {
    type V = Set<RoomName>;

    closed spec fn view(&self) -> Set<RoomName> {
        Set::new(|room: RoomName| self.keys@.contains(room_key(room)))
    }
}

impl RoomSet {
    /// The empty set.
    pub fn new() -> (res: RoomSet)
        ensures
            res@ == Set::<RoomName>::empty(),
    {
        RoomSet { keys: HashSet::new() }
    }

    /// Whether the set holds a room.
    pub fn contains(&self, room: RoomName) -> (res: bool)
        ensures
            res == self@.contains(room),
    {
        let key: u64 = to_key(room);
        self.keys.contains(&key)
    }

    /// Adds a room.
    pub fn insert(&mut self, room: RoomName)
        ensures
            final(self)@ == old(self)@.insert(room),
    {
        let key: u64 = to_key(room);
        self.keys.insert(key);
        proof {
            lemma_key_room(key);
            assert(self@ =~= old(self)@.insert(room));
        }
    }

    /// Takes a room out.
    pub fn remove(&mut self, room: RoomName)
        ensures
            final(self)@ == old(self)@.remove(room),
    {
        let key: u64 = to_key(room);
        self.keys.remove(&key);
        proof {
            lemma_key_room(key);
            assert(self@ =~= old(self)@.remove(room));
        }
    }

    /// The rooms of the set which a list does not hold, each once. Their order is not fixed.
    pub fn missing_from(&self, rooms: &Vec<RoomName>) -> (res: Vec<RoomName>)
        ensures
            res@.no_duplicates(),
            res@.to_set() == self@.difference(rooms@.to_set()),
    {
        let mut res: Vec<RoomName> = Vec::new();
        let ghost mut seen: Seq<u64> = Seq::empty();
        let walk = self.keys.iter();
        let ghost all = vstd::std_specs::iter::IteratorSpec::remaining(&walk).unref();
        for key in iter: walk
            invariant
                iter.seq().unref() == all,
                iter.seq().no_duplicates(),
                seen == all.take(iter.index() as int),
                res@.no_duplicates(),
                forall|room: RoomName| #[trigger]
                    res@.contains(room) <==> seen.contains(room_key(room)) && !rooms@.contains(
                        room,
                    ),
        {
            let room = to_room(*key);
            let ghost before = res@;
            proof {
                let n = iter.index() as int;
                assert(all[n] == *key);
                assert(all.take(n + 1) =~= all.take(n).push(*key));
                lemma_key_room(*key);
                assert(!seen.contains(*key)) by {
                    if seen.contains(*key) {
                        let j = choose|j: int| 0 <= j < n && all[j] == *key;
                        assert(iter.seq()[j] == iter.seq()[n]);
                    }
                }
                assert(!before.contains(room));
            }
            if !lists(rooms, room) {
                res.push(room);
            }
            proof {
                let grown = seen.push(*key);
                assert forall|other: RoomName| #[trigger]
                    res@.contains(other) <==> grown.contains(room_key(other)) && !rooms@.contains(
                        other,
                    ) by {
                    lemma_push_contains(seen, *key, room_key(other));
                    lemma_push_contains(before, room, other);
                }
                seen = grown;
            }
        }
        proof {
            assert(seen =~= all);
            assert forall|room: RoomName|
                res@.to_set().contains(room) == self@.difference(rooms@.to_set()).contains(
                    room,
                ) by {
                assert(res@.contains(room) <==> seen.contains(room_key(room)) && !rooms@.contains(
                    room,
                ));
                assert(seen.to_set().contains(room_key(room)) == self.keys@.contains(
                    room_key(room),
                ));
            }
        }
        res
    }
}

} // verus!
