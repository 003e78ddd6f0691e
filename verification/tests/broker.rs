use wows_replays::broker::Broker;

#[test]
fn single_sub_then_pub() {
    let mut b = Broker::new();
    let (mailbox, backfill) = b.subscribe("a");
    assert!(backfill.is_empty());
    let publisher = b.publish();
    b.set_username(publisher, "a").unwrap();
    assert_eq!(b.upload(publisher, vec![1, 2, 3]), vec![mailbox]);
}

#[test]
fn single_pub_then_sub() {
    let mut b = Broker::new();
    let publisher = b.publish();
    b.set_username(publisher, "a").unwrap();
    let (mailbox, backfill) = b.subscribe("a");
    assert!(backfill.is_empty());
    assert_eq!(b.upload(publisher, vec![1, 2, 3]), vec![mailbox]);
}

#[test]
fn delayed_subscription_backfill() {
    let mut b = Broker::new();
    let publisher = b.publish();
    b.set_username(publisher, "a").unwrap();
    assert!(b.upload(publisher, vec![1, 2, 3]).is_empty());
    let (_, backfill) = b.subscribe("a");
    assert_eq!(backfill, vec![vec![1, 2, 3]]);
}

#[test]
fn delayed_subscription_backfill_multi() {
    let mut b = Broker::new();
    let publisher = b.publish();
    b.set_username(publisher, "a").unwrap();
    b.upload(publisher, vec![1, 2, 3]);
    b.upload(publisher, vec![4, 5, 6]);
    let (_, backfill) = b.subscribe("a");
    assert_eq!(backfill, vec![vec![1, 2, 3], vec![4, 5, 6]]);
}

#[test]
fn re_publishing_while_subscribed() {
    let mut b = Broker::new();
    let publisher = b.publish();
    b.set_username(publisher, "a").unwrap();
    b.upload(publisher, vec![1, 2, 3]);
    b.upload(publisher, vec![4, 5, 6]);
    let (mailbox, backfill) = b.subscribe("a");
    assert_eq!(backfill, vec![vec![1, 2, 3], vec![4, 5, 6]]);
    b.drop_publisher(publisher);
    let second = b.publish();
    b.set_username(second, "a").unwrap();
    assert_eq!(b.upload(second, vec![7, 8, 9]), vec![mailbox]);
}

#[test]
fn second_connected_publisher_for_a_username_is_refused() {
    let mut b = Broker::new();
    let first = b.publish();
    b.set_username(first, "a").unwrap();
    let second = b.publish();
    assert!(b.set_username(second, "a").is_err());
    assert!(b.set_username(second, "b").is_ok());
}

#[test]
fn uploads_reach_only_connected_subscribers_of_the_username() {
    let mut b = Broker::new();
    let (s1, _) = b.subscribe("a");
    let (s2, _) = b.subscribe("b");
    let (s3, _) = b.subscribe("a");
    assert_eq!(b.clone_subscribers("a"), vec![s1, s3]);
    let publisher = b.publish();
    b.set_username(publisher, "a").unwrap();
    assert_eq!(b.upload(publisher, vec![1]), vec![s1, s3]);
    b.drop_subscriber(s1);
    assert_eq!(b.upload(publisher, vec![2]), vec![s3]);
    assert_ne!(s2, s3);
}

#[test]
fn upload_before_naming_is_kept_for_later_subscribers() {
    let mut b = Broker::new();
    let (early, _) = b.subscribe("a");
    let publisher = b.publish();
    assert!(b.upload(publisher, vec![9]).is_empty());
    b.set_username(publisher, "a").unwrap();
    let (late, backfill) = b.subscribe("a");
    assert_eq!(backfill, vec![vec![9]]);
    assert_eq!(b.upload(publisher, vec![10]), vec![early, late]);
}
