use xbee_rust_modem_library::replay::{InOrder, InOrderDecision};

#[test]
fn starts_at_zero_and_accepts_ahead_packets_with_gap() {
    let replay = InOrder::default();

    assert_eq!(replay.expected(), 0);
    assert_eq!(replay.decide(0), InOrderDecision::Accept);
    assert_eq!(
        replay.decide(1),
        InOrderDecision::AcceptWithGap { missed: 1 }
    );
}

#[test]
fn advances_past_authenticated_gap() {
    let mut replay = InOrder::default();

    assert_eq!(replay.decide(0), InOrderDecision::Accept);
    assert_eq!(replay.expected(), 0);

    replay.mark_accepted(0);

    assert_eq!(replay.expected(), 1);
    assert_eq!(replay.decide(0), InOrderDecision::DropOldOrDuplicate);
    assert_eq!(
        replay.decide(2),
        InOrderDecision::AcceptWithGap { missed: 1 }
    );

    replay.mark_accepted(2);

    assert_eq!(replay.expected(), 3);
    assert_eq!(replay.decide(1), InOrderDecision::DropOldOrDuplicate);
}

#[test]
fn decide_and_update_does_not_advance_on_duplicates() {
    let mut replay = InOrder::default();

    assert_eq!(
        replay.decide_and_update(2),
        InOrderDecision::AcceptWithGap { missed: 2 }
    );
    assert_eq!(replay.expected(), 3);
    assert_eq!(
        replay.decide_and_update(2),
        InOrderDecision::DropOldOrDuplicate
    );
    assert_eq!(replay.expected(), 3);
}

#[test]
fn an_accepted_number_is_never_accepted_again() {
    let mut replay = InOrder::default();
    for seq in [0u64, 1, 5, 6, 100] {
        assert_ne!(replay.decide_and_update(seq), InOrderDecision::DropOldOrDuplicate);
        assert_eq!(replay.decide_and_update(seq), InOrderDecision::DropOldOrDuplicate);
    }
    assert_eq!(replay.expected(), 101);
}

#[test]
fn marking_an_old_number_keeps_the_window() {
    let mut replay = InOrder::default();
    replay.mark_accepted(9);
    replay.mark_accepted(3);
    assert_eq!(replay.expected(), 10);
}

#[test]
fn gap_counts_the_skipped_numbers() {
    let mut replay = InOrder::default();
    replay.mark_accepted(4);
    assert_eq!(replay.decide(12), InOrderDecision::AcceptWithGap { missed: 7 });
}
