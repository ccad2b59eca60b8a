use spaceport::hub::Hub;

#[test]
fn publish_reaches_every_subscriber() {
    let mut hub = Hub::new();
    let a = hub.subscribe().unwrap();
    let b = hub.subscribe().unwrap();
    let c = hub.subscribe().unwrap();
    assert_eq!(hub.publish_targets(), vec![a, b, c]);
    assert!(hub.unsubscribe(b));
    let mut left = hub.publish_targets();
    left.sort();
    assert_eq!(left, vec![a, c]);
}

#[test]
fn failed_delivery_prunes_only_that_subscriber() {
    let mut hub = Hub::new();
    let a = hub.subscribe().unwrap();
    let b = hub.subscribe().unwrap();
    let c = hub.subscribe().unwrap();
    hub.prune(&vec![a]);
    let mut left = hub.publish_targets();
    left.sort();
    assert_eq!(left, vec![b, c]);
    assert_eq!(hub.len(), 2);
}

#[test]
fn handles_are_never_reused() {
    let mut hub = Hub::new();
    let a = hub.subscribe().unwrap();
    hub.unsubscribe(a);
    let b = hub.subscribe().unwrap();
    assert_ne!(a, b);
    assert!(!hub.unsubscribe(a));
}

#[test]
fn empty_hub_has_no_targets() {
    let hub = Hub::new();
    assert!(hub.publish_targets().is_empty());
}
