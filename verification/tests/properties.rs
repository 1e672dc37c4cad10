use space_scan::error::Error;
use space_scan::field::{decode_header, field_size, Header};
use space_scan::space::{EmptySpace, OccupiedSpace, Space, SpaceIterator};

#[test]
fn test_field_size_is_header_plus_body() {
    assert_eq!(field_size(3), 4);
    assert_eq!(field_size(0), 1);
    assert_eq!(field_size(15), 16);
}

#[test]
fn test_decode_header_tags() {
    assert_eq!(decode_header(0), Some(Header::Uninitialized));
    assert_eq!(decode_header(1), Some(Header::Inserted));
    assert_eq!(decode_header(2), Some(Header::Continued));
    assert_eq!(decode_header(3), Some(Header::Deleted));
    assert_eq!(decode_header(4), None);
    assert_eq!(decode_header(255), None);
}

#[test]
fn test_empty_spaces_are_always_one_field_wide() {
    // Three free fields between and after records: every empty result has
    // len == 4, never a merged larger region.
    let data = &[
        1, 9, 9, 9,
        0, 0, 0, 0,
        3, 0, 0, 0,
        1, 8, 8, 8,
        0, 0, 0, 0,
    ];
    let mut iterator = SpaceIterator::new(data, 3, 0);
    let mut empties: usize = 0;
    while let Some(space) = iterator.next() {
        if let Space::Empty(e) = space.unwrap() {
            assert_eq!(e.len, 4);
            empties += 1;
        }
    }
    assert_eq!(empties, 3);
}

#[test]
fn test_occupied_len_is_multiple_of_field_size() {
    let data = &[
        1, 9, 9, 9,
        2, 9, 9, 9,
        2, 9, 9, 9,
        0, 0, 0, 0,
        1, 8, 8, 8,
    ];
    let mut iterator = SpaceIterator::new(data, 3, 0);
    let first = iterator.next().unwrap().unwrap();
    assert_eq!(
        first,
        Space::Occupied(OccupiedSpace { offset: 0, data: &data[0..12] })
    );
    if let Space::Occupied(o) = first {
        assert_eq!(o.data.len() % 4, 0);
    }
    assert_eq!(
        iterator.next().unwrap().unwrap(),
        Space::Empty(EmptySpace { offset: 12, len: 4 })
    );
    assert_eq!(
        iterator.next().unwrap().unwrap(),
        Space::Occupied(OccupiedSpace { offset: 16, data: &data[16..20] })
    );
    assert!(iterator.next().is_none());
}

#[test]
fn test_inserted_after_continued_folds_into_same_run() {
    // An Inserted field that follows a Continued field is folded into the
    // open run rather than starting a new one.
    let data = &[
        1, 9, 9, 9,
        2, 9, 9, 9,
        1, 8, 8, 8,
    ];
    let mut iterator = SpaceIterator::new(data, 3, 0);
    assert_eq!(
        iterator.next().unwrap().unwrap(),
        Space::Occupied(OccupiedSpace { offset: 0, data: &data[0..12] })
    );
    assert!(iterator.next().is_none());
}

#[test]
fn test_results_are_gapless_and_ordered() {
    let data = &[
        0, 0, 0, 0,
        1, 9, 9, 9,
        2, 9, 9, 9,
        3, 0, 0, 0,
        1, 8, 8, 8,
        0, 0, 0, 0,
    ];
    let mut iterator = SpaceIterator::new(data, 3, 0);
    let mut expected_offset: usize = 0;
    while let Some(space) = iterator.next() {
        match space.unwrap() {
            Space::Occupied(o) => {
                assert_eq!(o.offset, expected_offset);
                expected_offset += o.data.len();
            }
            Space::Empty(e) => {
                assert_eq!(e.offset, expected_offset);
                expected_offset += e.len;
            }
        }
    }
    assert_eq!(expected_offset, data.len());
}

#[test]
fn test_peek_is_idempotent() {
    let data = &[1, 9, 9, 9, 0, 0, 0, 0];
    let mut iterator = SpaceIterator::new(data, 3, 0);
    let expected = Space::Occupied(OccupiedSpace { offset: 0, data: &data[0..4] });
    assert_eq!(iterator.peek().unwrap().as_ref().unwrap(), &expected);
    assert_eq!(iterator.peek().unwrap().as_ref().unwrap(), &expected);
    assert_eq!(iterator.peek().unwrap().as_ref().unwrap(), &expected);
    // The pull that follows consumes exactly the peeked value.
    assert_eq!(iterator.next().unwrap().unwrap(), expected);
    assert_eq!(
        iterator.next().unwrap().unwrap(),
        Space::Empty(EmptySpace { offset: 4, len: 4 })
    );
    assert!(iterator.next().is_none());
}

#[test]
fn test_peek_on_exhausted_scanner() {
    let data = &[0, 0, 0, 0];
    let mut iterator = SpaceIterator::new(data, 3, 0);
    assert_eq!(
        iterator.next().unwrap().unwrap(),
        Space::Empty(EmptySpace { offset: 0, len: 4 })
    );
    assert!(iterator.peek().is_none());
    assert!(iterator.peek().is_none());
    assert!(iterator.next().is_none());
}

#[test]
fn test_forward_seek_is_monotone() {
    let data = &[
        0, 0, 0, 0,
        0, 0, 0, 0,
        0, 0, 0, 0,
    ];
    let mut iterator = SpaceIterator::new(data, 3, 0);
    iterator.move_offset_forward(8);
    // A seek backwards is a no-op: the cursor stays at 8.
    iterator.move_offset_forward(4);
    assert_eq!(
        iterator.next().unwrap().unwrap(),
        Space::Empty(EmptySpace { offset: 8, len: 4 })
    );
    assert!(iterator.next().is_none());
}

#[test]
fn test_forward_seek_discards_peeked_value() {
    let data = &[
        0, 0, 0, 0,
        1, 9, 9, 9,
        1, 8, 8, 8,
    ];
    let mut iterator = SpaceIterator::new(data, 3, 0);
    // Peeking computes the first result and leaves the cursor right after it.
    assert_eq!(
        iterator.peek().unwrap().as_ref().unwrap(),
        &Space::Empty(EmptySpace { offset: 0, len: 4 })
    );
    // Seeking past the cursor discards the cached result.
    iterator.move_offset_forward(8);
    assert_eq!(
        iterator.next().unwrap().unwrap(),
        Space::Occupied(OccupiedSpace { offset: 8, data: &data[8..12] })
    );
    assert!(iterator.next().is_none());
}

#[test]
fn test_scan_starts_at_given_offset() {
    let data = &[1, 9, 9, 9, 3, 0, 0, 0];
    let mut iterator = SpaceIterator::new(data, 3, 4);
    assert_eq!(
        iterator.next().unwrap().unwrap(),
        Space::Empty(EmptySpace { offset: 4, len: 4 })
    );
    assert!(iterator.next().is_none());
}

#[test]
fn test_deleted_field_is_free() {
    let data = &[3, 7, 7, 7];
    let mut iterator = SpaceIterator::new(data, 3, 0);
    assert_eq!(
        iterator.next().unwrap().unwrap(),
        Space::Empty(EmptySpace { offset: 0, len: 4 })
    );
    assert!(iterator.next().is_none());
}

#[test]
fn test_unknown_header_byte_is_a_decode_error() {
    let data = &[4, 0, 0, 0];
    let mut iterator = SpaceIterator::new(data, 3, 0);
    assert_eq!(iterator.next().unwrap(), Err(Error::UnknownHeader));
}

#[test]
fn test_decode_error_interrupts_an_open_run() {
    // The decode failure is the step's result: the open run before it is
    // never reported.
    let data = &[1, 9, 9, 9, 7, 0, 0, 0];
    let mut iterator = SpaceIterator::new(data, 3, 0);
    assert_eq!(iterator.next().unwrap(), Err(Error::UnknownHeader));
}

#[test]
fn test_continued_after_free_is_invalid_header() {
    let data = &[3, 0, 0, 0, 2, 0, 0, 0];
    let mut iterator = SpaceIterator::new(data, 3, 0);
    assert_eq!(iterator.next().unwrap(), Err(Error::InvalidHeader));
}

#[test]
fn test_trailing_partial_field_ends_the_scan() {
    // Fewer than one field width of bytes remain after the record: the
    // scan flushes the run and ends.
    let data = &[1, 9, 9, 9, 5, 5];
    let mut iterator = SpaceIterator::new(data, 3, 0);
    assert_eq!(
        iterator.next().unwrap().unwrap(),
        Space::Occupied(OccupiedSpace { offset: 0, data: &data[0..4] })
    );
    assert!(iterator.next().is_none());
}

#[test]
fn test_seek_past_end_exhausts_the_scan() {
    let data = &[0, 0, 0, 0];
    let mut iterator = SpaceIterator::new(data, 3, 0);
    iterator.move_offset_forward(100);
    assert!(iterator.next().is_none());
}
