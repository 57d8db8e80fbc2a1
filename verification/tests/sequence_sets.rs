use kakimail::imap_op::search::{Sequence, SequenceSet};

#[test]
fn test_sequence_set() {
    let test_str = "2,3,7:10,15:*";
    let result = SequenceSet::from_str(test_str).unwrap();
    let expected = SequenceSet {
        sequences: vec![
            Sequence::Int(2),
            Sequence::Int(3),
            Sequence::Range(7, 10),
            Sequence::RangeFrom(15),
        ],
    };
    assert_eq!(result, expected)
}

#[test]
#[should_panic]
fn test_bad_sequence_set() {
    let test_str = "2,3,7:10,1s:*";
    SequenceSet::from_str(test_str).unwrap();
}

#[test]
fn test_sequence_set_from_list() {
    let list = vec![1, 2, 3, 5, 6, 7, 9, 11, 12];
    let result = SequenceSet::from(list);
    let expected = SequenceSet {
        sequences: vec![
            Sequence::Range(1, 3),
            Sequence::Range(5, 7),
            Sequence::Int(9),
            Sequence::Range(11, 12),
        ],
    };
    assert_eq!(result, expected)
}

#[test]
fn sequence_set_round_trip_text() {
    let set = SequenceSet::from_str("1:3,5,9:*,*:4,*").unwrap();
    assert_eq!(set.to_string(), "1:3,5,9:*,*:4,*");
}

#[test]
fn sequence_set_contains() {
    let set = SequenceSet::from_str("2,7:10,15:*").unwrap();
    assert!(set.contains(2));
    assert!(!set.contains(3));
    assert!(set.contains(7));
    assert!(set.contains(10));
    assert!(!set.contains(11));
    assert!(set.contains(15));
    assert!(set.contains(4000000000));
    assert!(Sequence::RangeTo(4).contains(4));
    assert!(!Sequence::RangeTo(4).contains(5));
    assert!(Sequence::RangeFull.contains(0));
}
