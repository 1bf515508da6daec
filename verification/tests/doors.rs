use onlinerpg::doors::{DoorKey, OpenDoors};

fn door(house: &str, room: u32, wall: u8, seg: u32) -> DoorKey {
    DoorKey { house_id: house.to_string(), room_index: room, wall_dir: wall, segment_index: seg }
}

#[test]
fn toggling_opens_then_closes() {
    let mut doors = OpenDoors::new();
    assert!(doors.is_empty());
    assert!(doors.toggle(door("r+00_+00_1", 0, 2, 1)));
    assert!(doors.is_open(&door("r+00_+00_1", 0, 2, 1)));
    assert!(!doors.is_open(&door("r+00_+00_1", 0, 2, 2)));
    assert!(!doors.toggle(door("r+00_+00_1", 0, 2, 1)));
    assert!(!doors.is_open(&door("r+00_+00_1", 0, 2, 1)));
    assert!(doors.is_empty());
}

#[test]
fn clearing_a_house_closes_only_its_doors() {
    let mut doors = OpenDoors::new();
    doors.toggle(door("a", 0, 0, 0));
    doors.toggle(door("a", 1, 3, 2));
    doors.toggle(door("b", 0, 1, 0));
    let mut open_a = doors.open_in_house("a");
    open_a.sort();
    assert_eq!(open_a, vec![(0, 0, 0), (1, 3, 2)]);
    doors.clear_for_house("a");
    assert!(doors.open_in_house("a").is_empty());
    assert_eq!(doors.open_in_house("b"), vec![(0, 1, 0)]);
    assert!(doors.is_open(&door("b", 0, 1, 0)));
    assert!(!doors.is_open(&door("a", 1, 3, 2)));
}
