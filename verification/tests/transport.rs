use probes::transport::{Channel, Transport};

#[test]
fn a_new_channel_is_empty() {
    let channel = Channel::with_max_entries("connect_event", 1024);
    assert_eq!(channel.name(), "connect_event");
    assert_eq!(channel.capacity(), 1024);
    assert_eq!(channel.len(), 0);
    assert!(channel.is_empty());
    assert!(!channel.is_full());
    assert!(channel.is_named(&"connect_event".to_string()));
    assert!(!channel.is_named(&"connect_events".to_string()));
}

#[test]
fn a_channel_hands_records_out_in_insertion_order() {
    let mut channel = Channel::with_max_entries("c", 8);
    channel.insert(&[1]);
    channel.insert(&[2, 2]);
    channel.insert(&[3, 3, 3]);
    assert_eq!(channel.len(), 3);
    assert_eq!(channel.take(), Some(vec![1]));
    assert_eq!(channel.take(), Some(vec![2, 2]));
    channel.insert(&[4]);
    assert_eq!(channel.take(), Some(vec![3, 3, 3]));
    assert_eq!(channel.take(), Some(vec![4]));
    assert_eq!(channel.take(), None);
    assert!(channel.is_empty());
}

#[test]
fn a_full_channel_drops_what_it_is_given() {
    let mut channel = Channel::with_max_entries("c", 2);
    channel.insert(&[1]);
    channel.insert(&[2]);
    assert!(channel.is_full());
    channel.insert(&[3]);
    channel.insert(&[4]);
    assert_eq!(channel.len(), 2);
    assert_eq!(channel.take(), Some(vec![1]));
    assert_eq!(channel.take(), Some(vec![2]));
    assert_eq!(channel.take(), None);
}

#[test]
fn a_channel_without_capacity_drops_everything() {
    let mut channel = Channel::with_max_entries("c", 0);
    assert!(channel.is_full());
    channel.insert(&[1]);
    assert!(channel.is_empty());
    assert_eq!(channel.take(), None);
}

#[test]
fn a_channel_takes_records_again_once_room_is_made() {
    let mut channel = Channel::with_max_entries("c", 1);
    channel.insert(&[1]);
    channel.insert(&[2]);
    assert_eq!(channel.take(), Some(vec![1]));
    channel.insert(&[3]);
    assert_eq!(channel.take(), Some(vec![3]));
}

#[test]
fn a_name_stands_for_one_channel() {
    let mut transport = Transport::new();
    assert!(transport.open("connect_event", 2));
    assert!(!transport.open("connect_event", 100));
    assert!(transport.open("fd_write_event", 2));
    transport.insert("connect_event", &[1]);
    transport.insert("connect_event", &[2]);
    transport.insert("connect_event", &[3]);
    assert_eq!(transport.waiting("connect_event"), Some(2));
    assert_eq!(transport.waiting("fd_write_event"), Some(0));
    assert_eq!(transport.waiting("nothing"), None);
}

#[test]
fn an_insert_under_an_unknown_name_changes_nothing() {
    let mut transport = Transport::new();
    assert!(transport.open("connect_event", 2));
    transport.insert("connect", &[1]);
    transport.insert("", &[1]);
    transport.insert("connect_event ", &[1]);
    assert_eq!(transport.waiting("connect_event"), Some(0));
    assert!(transport.next().is_none());
}

#[test]
fn an_empty_transport_yields_nothing() {
    let mut transport = Transport::new();
    assert!(transport.next().is_none());
    assert!(transport.open("a", 1));
    assert!(transport.next().is_none());
}

#[test]
fn records_of_one_channel_arrive_in_insertion_order() {
    let mut transport = Transport::new();
    assert!(transport.open("a", 8));
    assert!(transport.open("b", 8));
    transport.insert("b", &[10]);
    transport.insert("a", &[1]);
    transport.insert("b", &[20]);
    transport.insert("a", &[2]);
    transport.insert("b", &[30]);
    let mut of_a = Vec::new();
    let mut of_b = Vec::new();
    while let Some((name, record)) = transport.next() {
        if name == "a" {
            of_a.push(record);
        } else {
            assert_eq!(name, "b");
            of_b.push(record);
        }
    }
    assert_eq!(of_a, vec![vec![1], vec![2]]);
    assert_eq!(of_b, vec![vec![10], vec![20], vec![30]]);
}

#[test]
fn the_first_channel_with_a_record_is_served_first() {
    let mut transport = Transport::new();
    assert!(transport.open("a", 8));
    assert!(transport.open("b", 8));
    transport.insert("b", &[10]);
    transport.insert("a", &[1]);
    transport.insert("b", &[20]);
    assert_eq!(transport.next(), Some(("a".to_string(), vec![1])));
    assert_eq!(transport.next(), Some(("b".to_string(), vec![10])));
    transport.insert("a", &[2]);
    assert_eq!(transport.next(), Some(("a".to_string(), vec![2])));
    assert_eq!(transport.next(), Some(("b".to_string(), vec![20])));
    assert_eq!(transport.next(), None);
}

#[test]
fn overflow_on_one_channel_leaves_the_others_alone() {
    let mut transport = Transport::new();
    assert!(transport.open("connect_event", 2));
    assert!(transport.open("fd_write_event", 2));
    transport.insert("connect_event", &[1]);
    transport.insert("connect_event", &[2]);
    transport.insert("connect_event", &[3]);
    assert_eq!(transport.waiting("connect_event"), Some(2));
    transport.insert("fd_write_event", &[9]);
    assert_eq!(transport.waiting("fd_write_event"), Some(1));
    assert_eq!(transport.next(), Some(("connect_event".to_string(), vec![1])));
    assert_eq!(transport.next(), Some(("connect_event".to_string(), vec![2])));
    assert_eq!(transport.next(), Some(("fd_write_event".to_string(), vec![9])));
    assert_eq!(transport.next(), None);
}

#[test]
fn delivery_goes_on_after_an_overflow_once_room_is_made() {
    let mut transport = Transport::new();
    assert!(transport.open("connect_event", 1));
    transport.insert("connect_event", &[1]);
    transport.insert("connect_event", &[2]);
    assert_eq!(transport.next(), Some(("connect_event".to_string(), vec![1])));
    assert_eq!(transport.next(), None);
    transport.insert("connect_event", &[3]);
    assert_eq!(transport.waiting("connect_event"), Some(1));
    assert_eq!(transport.next(), Some(("connect_event".to_string(), vec![3])));
}

#[test]
fn a_channel_of_1024_records_holds_exactly_that_many() {
    let mut transport = Transport::new();
    assert!(transport.open("connect_event", 1024));
    for i in 0..2000u32 {
        transport.insert("connect_event", &i.to_le_bytes());
    }
    assert_eq!(transport.waiting("connect_event"), Some(1024));
    for i in 0..1024u32 {
        let (_, record) = transport.next().unwrap();
        assert_eq!(record, i.to_le_bytes().to_vec());
    }
    assert!(transport.next().is_none());
}
