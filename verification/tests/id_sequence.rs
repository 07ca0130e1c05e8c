use scaproust::id_sequence::IdSequence;

#[test]
fn id_sequence_can_be_cloned() {
    let seq = IdSequence::new();
    let other = seq.clone();

    assert_eq!(0, other.next());
    assert_eq!(1, seq.next());
    assert_eq!(2, seq.next());
    assert_eq!(3, other.next());
}

#[test]
fn id_sequence_starts_at_zero_and_counts_up() {
    let seq = IdSequence::new();

    assert_eq!(0, seq.next());
    assert_eq!(1, seq.next());
    assert_eq!(2, seq.next());
}

#[test]
fn two_id_sequences_do_not_share_their_counter() {
    let seq = IdSequence::new();
    let other = IdSequence::new();

    assert_eq!(0, seq.next());
    assert_eq!(0, other.next());
    assert_eq!(1, seq.next());
}
