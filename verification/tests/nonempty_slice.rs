use nonempty::slice1::Slice1;
use nonempty::slice1::SizeOverflow;
use nonempty::slice1::from_ref;

#[test]
fn try_from_slice_rejects_empty_and_returns_it() {
    let items: &[i32] = &[];
    match Slice1::try_from_slice(items) {
        Ok(_) => panic!("an empty view must be rejected"),
        Err(original) => assert_eq!(original, items),
    }
}

#[test]
fn try_from_mut_slice_rejects_empty_and_returns_it() {
    let items: &mut [i32] = &mut [];
    match Slice1::try_from_mut_slice(items) {
        Ok(_) => panic!("an empty view must be rejected"),
        Err(original) => assert!(original.is_empty()),
    }
}

#[test]
fn try_from_mut_slice_accepts_non_empty() {
    let items: &mut [i32] = &mut [1, 2];
    let w = Slice1::try_from_mut_slice(items).ok().unwrap();
    assert_eq!(w.as_slice(), &[1, 2]);
}

#[test]
fn try_from_slice_accepts_non_empty() {
    let items: &[i32] = &[1, 2, 3];
    let w = Slice1::try_from_slice(items).ok().unwrap();
    assert_eq!(w.as_slice(), items);
}

#[test]
fn slice_round_trip_recovers_the_original() {
    let items: &[i32] = &[4, 5, 6];
    let w = Slice1::try_from_slice(items).ok().unwrap();
    let recovered = w.as_slice();
    assert_eq!(recovered, items);
    // Re-wrapping what was recovered always succeeds.
    assert!(Slice1::try_from_slice(recovered).is_ok());
}

#[test]
fn literal_accessors_are_total() {
    // A view over three listed elements: the length is three, the first and
    // last accessors return the first and last listed element.
    let w = Slice1::from_slice_unchecked(&[10, 20, 30]);
    assert_eq!(w.len().get(), 3);
    assert_eq!(*w.first(), 10);
    assert_eq!(*w.last(), 30);
}

#[test]
fn single_element_first_and_last_coincide() {
    let w = Slice1::from_slice_unchecked(&[42]);
    assert_eq!(w.len().get(), 1);
    assert_eq!(*w.first(), 42);
    assert_eq!(*w.last(), 42);
}

#[test]
fn split_first_yields_head_and_tail() {
    let w = Slice1::from_slice_unchecked(&[1, 2, 3]);
    let (head, tail) = w.split_first();
    assert_eq!(*head, 1);
    assert_eq!(tail, &[2, 3]);
    assert_eq!(tail.len(), w.len().get() - 1);
}

#[test]
fn split_first_of_single_leaves_empty_tail() {
    let w = Slice1::from_slice_unchecked(&[5]);
    let (head, tail) = w.split_first();
    assert_eq!(*head, 5);
    assert!(tail.is_empty());
}

#[test]
fn chunks_of_three_by_two() {
    // Chunking [1, 2, 3] by 2 yields [1, 2] and [3], in that order, and
    // both chunks are non-empty views themselves.
    let w = Slice1::from_slice_unchecked(&[1, 2, 3]);
    let chunks = w.chunks(2).into_inner();
    assert_eq!(chunks.len(), 2);
    assert_eq!(chunks[0].as_slice(), &[1, 2]);
    assert_eq!(chunks[1].as_slice(), &[3]);
    assert_eq!(chunks[0].len().get(), 2);
    assert_eq!(chunks[1].len().get(), 1);
}

#[test]
fn chunk_count_is_length_over_size_rounded_up() {
    let w = Slice1::from_slice_unchecked(&[1, 2, 3, 4, 5, 6, 7]);
    assert_eq!(w.chunks(3).into_inner().len(), 3);
    assert_eq!(w.chunks(7).into_inner().len(), 1);
    assert_eq!(w.chunks(10).into_inner().len(), 1);
    assert_eq!(w.chunks(1).into_inner().len(), 7);
}

#[test]
fn chunks_concatenate_back_to_the_original() {
    let items: &[i32] = &[1, 2, 3, 4, 5];
    let w = Slice1::from_slice_unchecked(items);
    let mut rebuilt: Vec<i32> = Vec::new();
    for chunk in w.chunks(2).into_inner() {
        rebuilt.extend_from_slice(chunk.as_slice());
    }
    assert_eq!(rebuilt, items);
}

#[test]
fn rchunks_of_three_by_two() {
    // Chunking [1, 2, 3] by 2 from the end yields [2, 3] and then the
    // front remainder [1].
    let w = Slice1::from_slice_unchecked(&[1, 2, 3]);
    let chunks = w.rchunks(2).into_inner();
    assert_eq!(chunks.len(), 2);
    assert_eq!(chunks[0].as_slice(), &[2, 3]);
    assert_eq!(chunks[1].as_slice(), &[1]);
}

#[test]
fn iter1_produces_every_element_in_order() {
    let w = Slice1::from_slice_unchecked(&[1, 2, 3]);
    let it = w.iter1();
    let (head, rest) = it.first();
    assert_eq!(*head, 1);
    assert_eq!(rest, vec![&2, &3]);
}

#[test]
fn to_vec1_clones_the_elements() {
    let w = Slice1::from_slice_unchecked(&[1, 2, 3]);
    let owned = w.to_vec1();
    assert_eq!(owned.as_slice(), &[1, 2, 3]);
}

#[test]
fn into_vec1_yields_the_same_elements() {
    let w = Slice1::from_slice_unchecked(&[8, 9]);
    let owned = w.into_vec1();
    assert_eq!(owned.into_inner(), vec![8, 9]);
}

#[test]
fn repeat_concatenates_the_copies() {
    // One copy and then two more: length 2 * (2 + 1), the copies in order.
    let w = Slice1::from_slice_unchecked(&[1, 2]);
    let repeated = w.once_and_then_repeat(2).ok().unwrap();
    assert_eq!(repeated.as_slice(), &[1, 2, 1, 2, 1, 2]);
    assert_eq!(repeated.len().get(), 6);
}

#[test]
fn repeat_zero_extra_copies_is_identity() {
    let w = Slice1::from_slice_unchecked(&[3, 4]);
    let repeated = w.once_and_then_repeat(0).ok().unwrap();
    assert_eq!(repeated.as_slice(), &[3, 4]);
}

#[test]
fn repeat_reports_overflow_instead_of_wrapping() {
    let w = Slice1::from_slice_unchecked(&[1u8, 2]);
    match w.once_and_then_repeat(usize::MAX) {
        Ok(_) => panic!("a length beyond the representable maximum must be refused"),
        Err(SizeOverflow) => {}
    }
    match w.once_and_then_repeat(usize::MAX / 2) {
        Ok(_) => panic!("a length beyond the representable maximum must be refused"),
        Err(SizeOverflow) => {}
    }
}

#[test]
fn from_ref_views_the_single_element() {
    let w = from_ref(&7);
    assert_eq!(w.len().get(), 1);
    assert_eq!(*w.first(), 7);
    assert_eq!(*w.last(), 7);
    assert_eq!(w.as_slice(), &[7]);
}
