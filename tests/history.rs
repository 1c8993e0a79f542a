use flip_cell::history::History;

#[test]
fn new_history_is_filled_with_clones() {
    let h = History::new(vec![0u8; 4], 3);
    assert_eq!(h.newest(), &vec![0u8; 4]);
    assert_eq!(h.oldest(), &vec![0u8; 4]);
}

#[test]
fn advance_rotates_newest_and_oldest() {
    let mut h = History::new(0i32, 3);
    *h.newest_mut() = 1;
    h.advance_newest();
    *h.newest_mut() = 2;
    h.advance_newest();
    *h.newest_mut() = 3;
    // Positions: [1, 2, 3], newest at 2, oldest at 0.
    assert_eq!(*h.newest(), 3);
    assert_eq!(*h.oldest(), 1);
    h.advance_newest();
    // The oldest became the newest and still holds its old value.
    assert_eq!(*h.newest(), 1);
    assert_eq!(*h.oldest(), 2);
}

#[test]
fn single_item_history_is_both_ends() {
    let mut h = History::new(7u32, 1);
    *h.newest_mut() = 9;
    assert_eq!(*h.oldest(), 9);
    h.advance_newest();
    assert_eq!(*h.newest(), 9);
}
