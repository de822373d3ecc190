use pvaccess::channel::{ChannelState, PeerAddr};
use pvaccess::clients::ClientManager;
use pvaccess::error::ProtocolError;
use pvaccess::fielddesc::FieldDesc;
use pvaccess::header::Command;
use pvaccess::registry::ChannelRegistry;

fn peer(last: u8, port: u16) -> PeerAddr {
    PeerAddr { ip: [0, 0, 0, 0, 0, 0, 0, 0, 0, 0, 0xFF, 0xFF, 10, 0, 0, last], port }
}

#[test]
fn channel_history_evicts_the_oldest() {
    let mut c = ChannelState::new("pv".to_string(), FieldDesc::Scalar(1), 3, 100);
    assert_eq!(c.last_updated, 100);
    for k in 0..5u8 {
        c.push_message(vec![k], 200 + k as u64);
    }
    let held: Vec<(u64, Vec<u8>)> = c.messages.iter().cloned().collect();
    assert_eq!(held, vec![(202, vec![2]), (203, vec![3]), (204, vec![4])]);
    assert_eq!(c.last_updated, 204);
    assert_eq!(c.capacity, 3);
}

#[test]
fn channel_history_of_capacity_zero_holds_nothing() {
    let mut c = ChannelState::new("pv".to_string(), FieldDesc::VariantUnion, 0, 0);
    c.push_message(vec![1], 5);
    c.push_message(vec![2], 6);
    assert!(c.messages.is_empty());
    assert_eq!(c.last_updated, 6);
}

#[test]
fn channel_subscribers_are_a_set_in_order() {
    let mut c = ChannelState::new("pv".to_string(), FieldDesc::VariantUnion, 1, 0);
    c.add_subscriber(peer(1, 1000));
    c.add_subscriber(peer(2, 1000));
    c.add_subscriber(peer(1, 1000));
    c.add_subscriber(peer(1, 1001));
    assert_eq!(c.subscribers, vec![peer(1, 1000), peer(2, 1000), peer(1, 1001)]);
    assert!(c.is_subscribed(&peer(2, 1000)));
    c.remove_subscriber(peer(2, 1000));
    assert_eq!(c.subscribers, vec![peer(1, 1000), peer(1, 1001)]);
    assert!(!c.is_subscribed(&peer(2, 1000)));
    c.remove_subscriber(peer(9, 9));
    assert_eq!(c.subscribers.len(), 2);
    assert!(peer(1, 1).is_same(&peer(1, 1)));
    assert!(!peer(1, 1).is_same(&peer(1, 2)));
    assert!(!peer(1, 1).is_same(&peer(2, 1)));
}

#[test]
fn registry_creates_once_and_counts_changes() {
    let mut r = ChannelRegistry::new();
    assert_eq!(r.change_count(), 0);
    assert_eq!(r.get_or_create("a", 2, 10), Some(0));
    assert_eq!(r.get_or_create("b", 2, 11), Some(1));
    assert_eq!(r.get_or_create("a", 9, 12), Some(0));
    assert_eq!(r.change_count(), 2);
    assert_eq!(r.len(), 2);
    assert_eq!(r.list(), vec!["a".to_string(), "b".to_string()]);
    assert_eq!(r.lookup("b"), Some(1));
    assert_eq!(r.lookup("c"), None);
    assert_eq!(r.channel(0).unwrap().capacity, 2);
    assert_eq!(r.channel(0).unwrap().last_updated, 10);
    assert_eq!(r.schema(1), Some(&FieldDesc::VariantUnion));
    assert_eq!(r.schema(5), None);
    assert!(r.destroy("a"));
    assert!(!r.destroy("a"));
    assert_eq!(r.change_count(), 3);
    assert_eq!(r.list(), vec!["b".to_string()]);
    // Numbers are not given out twice.
    assert_eq!(r.get_or_create("a", 2, 13), Some(2));
    assert_eq!(r.change_count(), 4);
    assert!(r.destroy_id(1));
    assert!(!r.destroy_id(1));
    assert_eq!(r.change_count(), 5);
    assert_eq!(r.list(), vec!["a".to_string()]);
}

#[test]
fn registry_push_and_history() {
    let mut r = ChannelRegistry::new();
    let id = r.get_or_create("pv", 2, 0).unwrap();
    assert!(r.push(id, vec![1], 1));
    assert!(r.push(id, vec![2], 2));
    assert!(r.push(id, vec![3], 3));
    assert!(!r.push(id + 1, vec![4], 4));
    assert_eq!(r.history(id, 10), Some(vec![vec![2], vec![3]]));
    assert_eq!(r.history(id, 1), Some(vec![vec![2]]));
    assert_eq!(r.history(id, 0), Some(vec![]));
    assert_eq!(r.history(id + 1, 10), None);
    assert_eq!(r.channel(id).unwrap().last_updated, 3);
    // Pushing is no change of the list of channels.
    assert_eq!(r.change_count(), 1);
}

#[test]
fn registry_subscriptions_and_schema() {
    let mut r = ChannelRegistry::new();
    let id = r.get_or_create("pv", 2, 0).unwrap();
    assert!(r.subscribe(id, peer(1, 1)));
    assert!(r.subscribe(id, peer(1, 1)));
    assert!(r.subscribe(id, peer(2, 1)));
    assert!(!r.subscribe(id + 1, peer(2, 1)));
    assert_eq!(r.channel(id).unwrap().subscribers, vec![peer(1, 1), peer(2, 1)]);
    assert!(r.unsubscribe(id, peer(1, 1)));
    assert!(!r.unsubscribe(id + 1, peer(1, 1)));
    assert_eq!(r.channel(id).unwrap().subscribers, vec![peer(2, 1)]);
    assert!(r.set_schema(id, FieldDesc::ArrayBounded(2, 10)));
    assert!(!r.set_schema(id + 1, FieldDesc::Scalar(0)));
    assert_eq!(r.schema(id), Some(&FieldDesc::ArrayBounded(2, 10)));
    assert_eq!(r.change_count(), 1);
}

#[test]
fn clients_are_kept_by_address() {
    let mut m = ClientManager::new();
    m.add_client(peer(1, 1));
    m.add_client(peer(2, 1));
    assert_eq!(m.len(), 2);
    assert!(!m.get(&peer(1, 1)).unwrap().authenticated);
    assert!(m.authenticate_client(&peer(1, 1)));
    assert!(!m.authenticate_client(&peer(3, 1)));
    assert!(m.get(&peer(1, 1)).unwrap().authenticated);
    assert!(!m.get(&peer(2, 1)).unwrap().authenticated);
    // A peer that connects again starts over.
    m.add_client(peer(1, 1));
    assert_eq!(m.len(), 2);
    assert!(!m.get(&peer(1, 1)).unwrap().authenticated);
    assert!(m.remove_client(&peer(1, 1)));
    assert!(!m.remove_client(&peer(1, 1)));
    assert_eq!(m.len(), 1);
    assert!(m.get(&peer(1, 1)).is_none());
}

#[test]
fn clients_expected_response() {
    let mut m = ClientManager::new();
    m.add_client(peer(1, 1));
    assert!(!m.verify_response(&peer(1, 1), Command::ConnectionValidation));
    assert!(m.set_expected_response(&peer(1, 1), Command::ConnectionValidation));
    assert!(!m.set_expected_response(&peer(2, 1), Command::ConnectionValidation));
    let c = m.get(&peer(1, 1)).unwrap();
    assert_eq!(c.expected_response, Some(Command::ConnectionValidation));
    assert_eq!(c.last_sent_request, Some(Command::ConnectionValidation));
    assert!(!m.verify_response(&peer(1, 1), Command::Echo));
    assert!(!m.verify_response(&peer(2, 1), Command::ConnectionValidation));
    assert!(m.verify_response(&peer(1, 1), Command::ConnectionValidation));
    assert_eq!(m.get(&peer(1, 1)).unwrap().expected_response, None);
    assert!(!m.verify_response(&peer(1, 1), Command::ConnectionValidation));
}

#[test]
fn clients_unexpected_command_closes_the_session() {
    let mut m = ClientManager::new();
    m.add_client(peer(1, 1));
    assert_eq!(m.on_command(&peer(1, 1), Command::Echo), Ok(()));
    m.set_expected_response(&peer(1, 1), Command::ConnectionValidation);
    assert_eq!(
        m.on_command(&peer(1, 1), Command::Echo),
        Err(ProtocolError::UnexpectedCommand)
    );
    assert!(m.get(&peer(1, 1)).is_none());
    m.add_client(peer(1, 1));
    m.set_expected_response(&peer(1, 1), Command::ConnectionValidation);
    assert_eq!(m.on_command(&peer(1, 1), Command::ConnectionValidation), Ok(()));
    assert_eq!(m.get(&peer(1, 1)).unwrap().expected_response, None);
    assert_eq!(m.on_command(&peer(9, 9), Command::Echo), Ok(()));
}
