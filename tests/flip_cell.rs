use flip_cell::flip_cell::{FlipCell, FlipReader, FlipWriter};
use flip_cell::shared_state::{pack, unpack, FRESH_FLAG, INDEX_MASK};
use std::marker::PhantomData;
use std::sync::MutexGuard;

fn third_index(a: u8, b: u8) -> u8 {
    3 - a - b
}

fn assert_distinct<T>(writer: &FlipWriter<T>, reader: &FlipReader<T>) {
    let w = writer.write_index();
    let r = reader.read_index();
    assert!(w < 3);
    assert!(r < 3);
    assert_ne!(w, r);
}

/// Mirrors the scenario of one producer and one consumer: the consumer sees
/// the initial value first, then each publish it has not seen, and of
/// several publishes only the last.
#[test]
fn scenario_publish_fetch_coalesce() {
    let (mut writer, mut reader) = FlipCell::new_clone(String::from("A"));
    assert_eq!(writer.write_index(), 1);
    assert_eq!(reader.read_index(), 2);

    // First fetch: the initial value is new to the consumer.
    assert!(reader.fetch());
    assert_eq!(reader.read_index(), 2);

    // The writer writes B into its slot and publishes it.
    let slot_b = writer.write_index();
    writer.publish();
    assert_distinct(&writer, &reader);
    assert!(reader.fetch());
    assert_eq!(reader.read_index(), slot_b);

    // Nothing published since: no change.
    assert!(!reader.fetch());
    assert_eq!(reader.read_index(), slot_b);

    // C then D without a fetch between them: only D is seen.
    let slot_c = writer.write_index();
    writer.publish();
    let slot_d = writer.write_index();
    writer.publish();
    assert_ne!(slot_c, slot_d);
    assert!(reader.fetch());
    assert_eq!(reader.read_index(), slot_d);
    assert_distinct(&writer, &reader);
}

#[test]
fn first_fetch_reports_change_without_publish() {
    let (writer, mut reader) = FlipCell::new3(10u32, 11u32, 12u32);
    assert!(reader.fetch());
    assert_eq!(reader.read_index(), 2);
    assert!(!reader.fetch());
    assert!(!reader.fetch());
    assert_eq!(reader.read_index(), 2);
    assert_eq!(writer.write_index(), 1);
}

#[test]
fn first_fetch_after_publish_takes_published_slot() {
    let (mut writer, mut reader) = FlipCell::<u64>::new_default();
    writer.publish();
    assert_eq!(writer.write_index(), 0);
    assert!(reader.fetch());
    assert_eq!(reader.read_index(), 1);
    assert!(!reader.fetch());
}

#[test]
fn many_publishes_then_one_fetch() {
    let (mut writer, mut reader) = FlipCell::new_clone(0i32);
    assert!(reader.fetch());
    let mut last = writer.write_index();
    for _ in 0..7 {
        last = writer.write_index();
        writer.publish();
        assert_distinct(&writer, &reader);
    }
    assert!(reader.fetch());
    assert_eq!(reader.read_index(), last);
    assert!(!reader.fetch());
}

#[test]
fn indices_stay_a_permutation() {
    let (mut writer, mut reader) = FlipCell::new_clone(vec![1u8, 2, 3]);
    let pattern = [true, false, false, true, true, false, true, false, true, true, true, false];
    for &publish in pattern.iter() {
        if publish {
            writer.publish();
        } else {
            reader.fetch();
        }
        assert_distinct(&writer, &reader);
        let shared = third_index(writer.write_index(), reader.read_index());
        assert!(shared < 3);
    }
}

#[test]
fn handles_share_one_cell() {
    let (mut writer, mut reader) = FlipCell::new_clone(5u16);
    let written = format!("{:p}", writer.owned_slot());
    assert_ne!(written, format!("{:p}", reader.owned_slot()));
    writer.publish();
    assert!(reader.fetch());
    // The reader now owns the very slot the writer published.
    assert_eq!(written, format!("{:p}", reader.owned_slot()));
}

/// A value that may not move to another thread.
#[derive(Clone)]
struct NotSend(i32, PhantomData<MutexGuard<'static, i32>>);

/// A cell can hold a value that may not move to another thread, as long as
/// its handles stay on one thread.
#[test]
fn not_send() {
    let (mut writer, mut reader) = FlipCell::new_clone(NotSend(0, PhantomData));
    writer.publish();
    assert!(reader.fetch());
    assert_eq!(reader.read_index(), 1);
}

#[test]
fn pack_unpack_round_trip() {
    for index in 0u8..3 {
        for fresh in [false, true] {
            assert_eq!(unpack(pack(index, fresh)), (index, fresh));
        }
    }
}

#[test]
fn pack_layout() {
    assert_eq!(pack(1, true), 5);
    assert_eq!(pack(2, false), 2);
    assert_eq!(unpack(6), (2, true));
    assert_eq!(unpack(1), (1, false));
    assert_eq!(INDEX_MASK & FRESH_FLAG, 0);
}

/// A reader borrowed from a shared handle offers nothing that would let two
/// threads reach the same slot.
#[test]
fn miri_reader_sync() {
    let (_writer, reader) = FlipCell::new_clone(std::cell::Cell::new(0));
    let shared = std::sync::Arc::new(reader);
    assert_eq!(shared.read_index(), 2);
}

/// A cell built from a value that borrows locals lives no longer than them.
#[test]
fn miri_lifetime() {
    let mut non_static = 0;
    {
        let (mut writer, mut reader) = FlipCell::new_clone(std::sync::Arc::new(&mut non_static));
        writer.publish();
        assert!(reader.fetch());
    }
    non_static += 1;
    assert_eq!(non_static, 1);
}
