use spider::hub::{Hub, Received};

#[test]
fn each_subscriber_gets_items_in_order() {
    let mut hub: Hub<u32> = Hub::new();
    let a = hub.subscribe(4);
    let b = hub.subscribe(4);
    for x in [1, 2, 3] {
        hub.publish(x);
    }
    assert_eq!(hub.receive(a), Received::Item(1));
    assert_eq!(hub.receive(a), Received::Item(2));
    assert_eq!(hub.receive(b), Received::Item(1));
    assert_eq!(hub.receive(a), Received::Item(3));
    assert_eq!(hub.receive(a), Received::Empty);
    assert_eq!(hub.receive(b), Received::Item(2));
}

#[test]
fn full_ring_drops_oldest_and_reports_lag() {
    let mut hub: Hub<u32> = Hub::new();
    let s = hub.subscribe(2);
    for x in [10, 20, 30, 40] {
        hub.publish(x);
    }
    assert_eq!(hub.receive(s), Received::Lagged(2));
    assert_eq!(hub.receive(s), Received::Item(30));
    assert_eq!(hub.receive(s), Received::Item(40));
    assert_eq!(hub.receive(s), Received::Empty);
}

#[test]
fn late_subscriber_sees_only_later_items() {
    let mut hub: Hub<u32> = Hub::new();
    hub.publish(1);
    let s = hub.subscribe(1);
    assert_eq!(s, 0);
    assert_eq!(hub.receive(s), Received::Empty);
    hub.publish(2);
    assert_eq!(hub.receive(s), Received::Item(2));
}
