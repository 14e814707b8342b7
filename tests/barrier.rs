use pertaasr::barrier::{Arrival, StartBarrier};

#[test]
fn single_participant_releases_immediately() {
    let mut b = StartBarrier::new(1);
    assert!(!b.is_open());
    assert_eq!(b.arrive(), Arrival::Release);
    assert!(b.is_open());
}

#[test]
fn last_arrival_releases() {
    let mut b = StartBarrier::new(3);
    assert_eq!(b.arrive(), Arrival::Wait);
    assert!(!b.is_open());
    assert_eq!(b.arrive(), Arrival::Wait);
    assert!(!b.is_open());
    assert_eq!(b.arrive(), Arrival::Release);
    assert!(b.is_open());
    assert_eq!(b.arrived(), 3);
    assert_eq!(b.size(), 3);
}

#[test]
fn arrivals_after_release_go_on() {
    let mut b = StartBarrier::new(2);
    b.arrive();
    b.arrive();
    assert_eq!(b.arrive(), Arrival::Open);
    assert!(Arrival::Open.proceeds());
    assert!(Arrival::Release.proceeds());
    assert!(!Arrival::Wait.proceeds());
    assert_eq!(b.arrived(), 2);
}

#[test]
fn nobody_proceeds_before_all_arrive() {
    for n in 1..20usize {
        let mut b = StartBarrier::new(n);
        for k in 1..=n {
            let a = b.arrive();
            if k < n {
                assert_eq!(a, Arrival::Wait);
                assert!(!b.is_open());
            } else {
                assert_eq!(a, Arrival::Release);
                assert!(b.is_open());
            }
        }
    }
}
