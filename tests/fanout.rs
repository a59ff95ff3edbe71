use mirakc::fanout::{Broadcaster, Subscriber};

#[test]
fn test_broadcast_delivers_to_all_with_room() {
    let mut b = Broadcaster::new(2);
    b.subscribe(1);
    b.subscribe(2);
    assert!(b.broadcast().is_empty());
    assert_eq!(
        b.subscribers(),
        &vec![Subscriber { user_id: 1, pending: 1 }, Subscriber { user_id: 2, pending: 1 }]
    );
}

#[test]
fn test_slow_user_is_dropped_alone() {
    let mut b = Broadcaster::new(2);
    b.subscribe(1);
    b.subscribe(2);
    b.broadcast();
    b.consumed(1);
    b.broadcast();
    // user 2 never read: its buffer is full now
    assert_eq!(
        b.subscribers(),
        &vec![Subscriber { user_id: 1, pending: 1 }, Subscriber { user_id: 2, pending: 2 }]
    );
    assert_eq!(b.broadcast(), vec![2]);
    assert_eq!(b.subscribers(), &vec![Subscriber { user_id: 1, pending: 2 }]);
}

#[test]
fn test_consumed_on_empty_buffer_and_unsubscribe() {
    let mut b = Broadcaster::new(1);
    b.subscribe(7);
    b.consumed(7);
    assert_eq!(b.subscribers(), &vec![Subscriber { user_id: 7, pending: 0 }]);
    b.subscribe(8);
    assert!(b.unsubscribe(7));
    assert!(!b.unsubscribe(7));
    assert_eq!(b.subscribers(), &vec![Subscriber { user_id: 8, pending: 0 }]);
}

#[test]
fn test_zero_capacity_drops_everyone() {
    let mut b = Broadcaster::new(0);
    b.subscribe(1);
    b.subscribe(2);
    assert_eq!(b.broadcast(), vec![1, 2]);
    assert!(b.subscribers().is_empty());
}
