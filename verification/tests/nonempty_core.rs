use nonempty::Cardinality;
use nonempty::MaybeEmpty;
use nonempty::safety::NonZeroExt;
use nonempty::safety::NonZeroLen;
use nonempty::safety::OptionExt;
use nonempty::safety::ResultExt;
use nonempty::safety::SliceExt;
use nonempty::vec1::Vec1;

#[test]
fn cardinality_of_empty_is_none() {
    let items: Vec<i32> = Vec::new();
    assert_eq!(items.cardinality(), None);
    let slice: &[i32] = &[];
    assert_eq!(slice.cardinality(), None);
}

#[test]
fn cardinality_of_single_is_one() {
    let items = vec![7];
    assert_eq!(items.cardinality(), Some(Cardinality::One));
    let slice: &[i32] = &[7];
    assert_eq!(slice.cardinality(), Some(Cardinality::One));
}

#[test]
fn cardinality_of_more_is_many() {
    let items = vec![7, 8];
    assert_eq!(items.cardinality(), Some(Cardinality::Many));
    let slice: &[i32] = &[7, 8, 9];
    assert_eq!(slice.cardinality(), Some(Cardinality::Many));
}

#[test]
fn try_from_vec_rejects_empty_and_returns_it() {
    let items: Vec<i32> = Vec::new();
    match Vec1::try_from_vec(items) {
        Ok(_) => panic!("an empty sequence must be rejected"),
        Err(original) => assert!(original.is_empty()),
    }
}

#[test]
fn try_from_vec_rejection_preserves_contents() {
    // The error carries the original container: elements and order intact.
    let items: Vec<i32> = Vec::new();
    let err = Vec1::try_from_vec(items).err().unwrap();
    assert_eq!(err, Vec::<i32>::new());
}

#[test]
fn try_from_vec_accepts_non_empty() {
    let w = Vec1::try_from_vec(vec![1, 2, 3]).ok().unwrap();
    assert_eq!(w.as_inner(), &vec![1, 2, 3]);
}

#[test]
fn round_trip_recovers_the_original() {
    let w = Vec1::try_from_vec(vec![4, 5]).ok().unwrap();
    let inner = w.into_inner();
    assert_eq!(inner, vec![4, 5]);
    // Re-wrapping what was recovered always succeeds.
    let again = Vec1::try_from_vec(inner);
    assert!(again.is_ok());
    assert_eq!(again.ok().unwrap().into_inner(), vec![4, 5]);
}

#[test]
fn vec1_accessors_are_total() {
    let mut w = Vec1::from_vec_unchecked(vec![1, 2, 3]);
    assert_eq!(*w.first(), 1);
    assert_eq!(*w.last(), 3);
    assert_eq!(w.len().get(), 3);
    *w.first_mut() = 10;
    *w.last_mut() = 30;
    assert_eq!(w.as_slice(), &[10, 2, 30]);
}

#[test]
fn vec1_grows_but_never_shrinks() {
    let mut w = Vec1::from_vec_unchecked(vec![9]);
    w.push(11);
    assert_eq!(w.as_slice(), &[9, 11]);
    assert_eq!(w.len().get(), 2);
}

#[test]
fn vec1_as_inner_mut_exposes_the_plain_sequence() {
    let mut w = Vec1::from_vec_unchecked(vec![1, 2]);
    w.as_inner_mut().push(3);
    assert_eq!(w.as_slice(), &[1, 2, 3]);
}

#[test]
fn vec1_as_mut_slice_allows_overwriting() {
    let mut w = Vec1::from_vec_unchecked(vec![1, 2, 3]);
    w.as_mut_slice()[1] = 20;
    assert_eq!(w.as_slice(), &[1, 20, 3]);
}

#[test]
fn vec1_split_first_mut_yields_head_and_tail() {
    let mut w = Vec1::from_vec_unchecked(vec![1, 2, 3]);
    {
        let (head, tail) = w.split_first_mut();
        assert_eq!(*head, 1);
        assert_eq!(tail, &mut [2, 3]);
        *head = 10;
        tail[0] = 20;
    }
    assert_eq!(w.as_slice(), &[10, 20, 3]);
}

#[test]
fn vec1_iter1_mut_borrows_each_element() {
    let mut w = Vec1::from_vec_unchecked(vec![1, 2, 3]);
    {
        let it = w.iter1_mut();
        let (head, rest) = it.first();
        *head = 10;
        for r in rest {
            *r += 1;
        }
    }
    assert_eq!(w.as_slice(), &[10, 3, 4]);
}

#[test]
fn vec1_chunks_mut_exposes_each_chunk() {
    let mut w = Vec1::from_vec_unchecked(vec![1, 2, 3]);
    {
        let chunks = w.chunks_mut(2).into_inner();
        assert_eq!(chunks.len(), 2);
        for chunk in chunks {
            chunk[0] *= 10;
        }
    }
    assert_eq!(w.as_slice(), &[10, 2, 30]);
}

#[test]
fn vec1_rchunks_mut_runs_from_the_end() {
    let mut w = Vec1::from_vec_unchecked(vec![1, 2, 3]);
    {
        let chunks = w.rchunks_mut(2).into_inner();
        assert_eq!(chunks.len(), 2);
        assert_eq!(chunks[0], &mut [2, 3]);
        assert_eq!(chunks[1], &mut [1]);
        for chunk in chunks {
            chunk[0] += 100;
        }
    }
    assert_eq!(w.as_slice(), &[101, 102, 3]);
}

#[test]
fn non_zero_len_rejects_zero() {
    assert!(NonZeroLen::new(0).is_none());
    assert_eq!(NonZeroLen::new(5).unwrap().get(), 5);
}

#[test]
fn non_zero_len_from_proven_input() {
    let l: NonZeroLen = NonZeroExt::new_maybe_unchecked(3);
    assert_eq!(l.get(), 3);
}

#[test]
fn option_unwrap_with_proven_presence() {
    assert_eq!(Some(5).unwrap_maybe_unchecked(), 5);
}

#[test]
fn result_unwrap_with_proven_success() {
    let r: Result<i32, String> = Ok(4);
    assert_eq!(r.unwrap_maybe_unchecked(), 4);
}

#[test]
fn slice_get_with_proven_bounds() {
    let items = [1, 2, 3];
    assert_eq!(*items.get_maybe_unchecked(1), 2);
}

#[test]
fn slice_get_mut_with_proven_bounds() {
    let mut items = [1, 2, 3];
    *items.get_maybe_unchecked_mut(2) = 9;
    assert_eq!(items, [1, 2, 9]);
}
