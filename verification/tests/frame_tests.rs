use rusty_life::frame::frame_interval_millis;
use rusty_life::frame::playfield_size;

#[test]
fn frame_interval_divides_one_second() {
    assert_eq!(frame_interval_millis(5), Some(200));
    assert_eq!(frame_interval_millis(1), Some(1000));
    assert_eq!(frame_interval_millis(3), Some(333));
}

#[test]
fn frame_interval_rejects_a_zero_rate() {
    assert_eq!(frame_interval_millis(0), None);
}

#[test]
fn playfield_leaves_room_for_the_border() {
    assert_eq!(playfield_size(80, 24), Some((78, 21)));
    assert_eq!(playfield_size(2, 3), Some((0, 0)));
}

#[test]
fn playfield_rejects_tiny_terminals() {
    assert_eq!(playfield_size(1, 24), None);
    assert_eq!(playfield_size(80, 2), None);
    assert_eq!(playfield_size(0, 0), None);
}
