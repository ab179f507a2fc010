use screeps_network::room::RoomName;
use screeps_network::room_set::{lists, RoomSet};

fn room(x_coord: i32, y_coord: i32) -> RoomName {
    RoomName { x_coord, y_coord }
}

#[test]
fn room_set_holds_what_was_inserted() {
    let mut set = RoomSet::new();
    assert!(!set.contains(room(0, 0)));
    set.insert(room(0, 0));
    set.insert(room(-1, 7));
    set.insert(room(0, 0));
    assert!(set.contains(room(0, 0)));
    assert!(set.contains(room(-1, 7)));
    assert!(!set.contains(room(7, -1)));
    set.remove(room(0, 0));
    assert!(!set.contains(room(0, 0)));
    assert!(set.contains(room(-1, 7)));
}

#[test]
fn room_set_tells_extreme_coordinates_apart() {
    let corners = vec![
        room(i32::MIN, i32::MIN),
        room(i32::MIN, i32::MAX),
        room(i32::MAX, i32::MIN),
        room(i32::MAX, i32::MAX),
        room(0, -1),
        room(-1, 0),
    ];
    let mut set = RoomSet::new();
    for corner in corners.iter() {
        assert!(!set.contains(*corner));
        set.insert(*corner);
        assert!(set.contains(*corner));
    }
    let missing = set.missing_from(&vec![]);
    assert_eq!(missing.len(), corners.len());
    for corner in corners.iter() {
        assert!(lists(&missing, *corner));
    }
}

#[test]
fn missing_from_leaves_listed_rooms_out() {
    let mut set = RoomSet::new();
    set.insert(room(1, 1));
    set.insert(room(2, 2));
    set.insert(room(3, 3));
    assert_eq!(set.missing_from(&vec![room(3, 3), room(9, 9), room(1, 1)]), vec![room(2, 2)]);
    assert_eq!(set.missing_from(&vec![room(1, 1), room(2, 2), room(3, 3)]), vec![]);
}

#[test]
fn lists_compares_both_coordinates() {
    let rooms = vec![room(1, 2), room(3, 4)];
    assert!(lists(&rooms, room(3, 4)));
    assert!(!lists(&rooms, room(1, 4)));
    assert!(!lists(&vec![], room(0, 0)));
}
