use pros_core::Reactor;

#[test]
fn empty_reactor_has_no_deadline() {
    let mut reactor = Reactor::new();
    assert_eq!(reactor.len(), 0);
    assert!(reactor.next_deadline().is_none());
    assert!(reactor.pop_expired(1000).is_none());
}

#[test]
fn next_deadline_is_the_earliest() {
    let mut reactor = Reactor::new();
    reactor.push(1, 70);
    reactor.push(2, 30);
    reactor.push(3, 50);
    assert_eq!(reactor.len(), 3);
    assert_eq!(reactor.next_deadline(), Some(30));
}

#[test]
fn pop_expired_ignores_future_deadlines() {
    let mut reactor = Reactor::new();
    reactor.push(1, 40);
    assert!(reactor.pop_expired(39).is_none());
    assert_eq!(reactor.len(), 1);
    let fired = reactor.pop_expired(40).unwrap();
    assert_eq!(fired.deadline, 40);
    assert_eq!(fired.waker, 1);
    assert_eq!(reactor.len(), 0);
}

#[test]
fn earlier_deadline_fires_first_despite_insertion_order() {
    // Sleepers inserted with deadlines 30 then 10: advancing the clock to 10
    // fires the deadline-10 callback before the deadline-30 one.
    let mut reactor = Reactor::new();
    reactor.push(1, 30);
    reactor.push(2, 10);
    let fired = reactor.sweep(10);
    assert_eq!(fired.len(), 1);
    assert_eq!(fired[0].deadline, 10);
    assert_eq!(fired[0].waker, 2);
    assert_eq!(reactor.len(), 1);
    let fired = reactor.sweep(30);
    assert_eq!(fired.len(), 1);
    assert_eq!(fired[0].deadline, 30);
    assert_eq!(fired[0].waker, 1);
    assert_eq!(reactor.len(), 0);
}

#[test]
fn sweep_fires_expired_in_deadline_order() {
    // Once the clock reaches the later of two deadlines, the earlier one's
    // callback fires no later than the later one's.
    let mut reactor = Reactor::new();
    reactor.push(1, 90);
    reactor.push(2, 20);
    reactor.push(3, 60);
    reactor.push(4, 20);
    let fired = reactor.sweep(60);
    assert_eq!(fired.len(), 3);
    assert_eq!(fired[0].deadline, 20);
    assert_eq!(fired[1].deadline, 20);
    assert_eq!(fired[2].deadline, 60);
    assert_eq!(fired[2].waker, 3);
    assert_eq!(reactor.len(), 1);
    assert_eq!(reactor.next_deadline(), Some(90));
}

#[test]
fn sweep_fires_each_callback_exactly_once() {
    let mut reactor = Reactor::new();
    reactor.push(7, 10);
    reactor.push(8, 10);
    let first = reactor.sweep(10);
    assert_eq!(first.len(), 2);
    let again = reactor.sweep(10);
    assert_eq!(again.len(), 0);
    assert_eq!(reactor.len(), 0);
}
