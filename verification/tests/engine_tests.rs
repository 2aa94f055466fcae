use chat_server::bus::{Bus, BusPoll};
use chat_server::connection::{ConnAction, ConnPhase, UserConnection};
use chat_server::input::IpAddress;
use chat_server::message::{ChatMessage, MessageTypes};
use chat_server::rate_limiter::RateLimiter;
use chat_server::registry::UserRegistry;
use chat_server::server::{handle_kick, hub_capacity, BanSet, ChatServer, ServerCommand};

const MAX_MESSAGES: u32 = 100;
const WINDOW_MS: u64 = 10_000;

fn join_msg(name: &str) -> ChatMessage {
    ChatMessage::try_new(MessageTypes::Join, Some(name.as_bytes().to_vec())).unwrap()
}

fn chat_msg(text: &str) -> ChatMessage {
    ChatMessage::try_new(MessageTypes::ChatMessage, Some(text.as_bytes().to_vec())).unwrap()
}

fn join(conn: &mut UserConnection, registry: &mut UserRegistry, name: &str) {
    let actions = conn.process_message(registry, join_msg(name), 0);
    assert!(actions.is_empty());
    assert_eq!(conn.display_name().as_ref().unwrap(), name);
}

#[test]
fn test_registry_uniqueness_over_join_rename_leave() {
    let mut reg = UserRegistry::new();
    assert!(reg.join("alice".to_string()));
    assert!(reg.join("bob".to_string()));
    assert!(!reg.join("alice".to_string()), "duplicate join must be refused");
    assert_eq!(reg.len(), 2);

    assert!(!reg.rename(&"alice".to_string(), "bob".to_string()), "rename onto a taken name");
    assert!(reg.rename(&"alice".to_string(), "carol".to_string()));
    assert!(!reg.contains(&"alice".to_string()));
    assert!(reg.contains(&"carol".to_string()));
    assert_eq!(reg.len(), 2);

    assert!(reg.leave(&"bob".to_string()));
    assert!(!reg.leave(&"bob".to_string()));
    assert_eq!(reg.len(), 1);

    let users = reg.list_users();
    assert_eq!(users, vec!["carol".to_string()]);
}

#[test]
fn test_rate_limiter_window() {
    let max: u32 = 5;
    let mut limiter = RateLimiter::new(max, 1000, 0);
    for i in 0..max {
        assert!(limiter.check_message(10 + i as u64), "message {} should pass", i);
    }
    assert!(!limiter.check_message(900), "the (N+1)-th message in one window is rejected");
    assert!(limiter.check_message(1001), "a new window admits again");
    for i in 0..4 {
        assert!(limiter.check_message(1002 + i), "the new window counts afresh");
    }
    assert!(!limiter.check_message(1010), "the new window fills up like the first");
}

#[test]
fn test_rate_limited_frame_is_answered_with_error() {
    let mut reg = UserRegistry::new();
    let mut conn = UserConnection::new(1, 1, 1000, 0);
    let first = conn.process_message(&mut reg, chat_msg("one"), 10);
    assert_eq!(first.len(), 1);
    assert!(matches!(first[0], ConnAction::Publish(_)));
    let second = conn.process_message(&mut reg, chat_msg("two"), 20);
    assert_eq!(second.len(), 1);
    match &second[0] {
        ConnAction::SendFrame(f) => assert!(matches!(f.get_type(), MessageTypes::Error)),
        _ => panic!("Expected an Error frame back"),
    }
}

#[test]
fn test_broadcast_reaches_others_but_not_sender() {
    let mut reg = UserRegistry::new();
    let mut hub: Bus<(ChatMessage, u64)> = Bus::new(hub_capacity(10));
    let mut a = UserConnection::new(1, MAX_MESSAGES, WINDOW_MS, 0);
    let b = UserConnection::new(2, MAX_MESSAGES, WINDOW_MS, 0);
    let c = UserConnection::new(3, MAX_MESSAGES, WINDOW_MS, 0);
    join(&mut a, &mut reg, "alice");

    let mut cur_a = hub.subscribe();
    let mut cur_b = hub.subscribe();
    let mut cur_c = hub.subscribe();

    let actions = a.process_message(&mut reg, chat_msg("hi"), 1);
    assert_eq!(actions.len(), 1);
    match actions.into_iter().next().unwrap() {
        ConnAction::Publish(m) => hub.publish((m, a.conn_id())),
        _ => panic!("A chat frame is published"),
    }

    for (conn, cur, delivered) in [(&b, &mut cur_b, true), (&c, &mut cur_c, true), (&a, &mut cur_a, false)] {
        match hub.poll(cur) {
            BusPoll::Ready(i) => {
                let (m, origin) = hub.get(i);
                match conn.on_delivery(m.clone(), *origin) {
                    Some(frame) => {
                        assert!(delivered, "the publisher must not hear its own message");
                        assert!(matches!(frame.get_type(), MessageTypes::ChatMessage));
                        assert_eq!(frame.get_content().as_ref().unwrap(), b"hi");
                    }
                    None => assert!(!delivered, "other connections must receive the message"),
                }
            }
            other => panic!("Expected a delivery, got {:?}", other),
        }
    }
}

#[test]
fn test_bus_preserves_order_and_reports_lag() {
    let mut bus: Bus<u64> = Bus::new(2);
    let mut cur = bus.subscribe();
    assert!(matches!(bus.poll(&mut cur), BusPoll::Pending));
    bus.publish(10);
    bus.publish(11);
    match bus.poll(&mut cur) {
        BusPoll::Ready(i) => assert_eq!(*bus.get(i), 10),
        other => panic!("Expected first entry, got {:?}", other),
    }
    match bus.poll(&mut cur) {
        BusPoll::Ready(i) => assert_eq!(*bus.get(i), 11),
        other => panic!("Expected second entry, got {:?}", other),
    }
    assert!(matches!(bus.poll(&mut cur), BusPoll::Pending));

    let mut slow = bus.subscribe();
    bus.publish(12);
    bus.publish(13);
    bus.publish(14);
    assert!(matches!(bus.poll(&mut slow), BusPoll::Lagged), "a subscriber too far behind lags");
}

#[test]
fn test_kick_closes_exactly_the_named_connection() {
    let mut reg = UserRegistry::new();
    let mut commands: Bus<ServerCommand> = Bus::new(100);
    let mut a = UserConnection::new(1, MAX_MESSAGES, WINDOW_MS, 0);
    let mut b = UserConnection::new(2, MAX_MESSAGES, WINDOW_MS, 0);
    join(&mut a, &mut reg, "alice");
    join(&mut b, &mut reg, "bob");

    let mut cur_a = commands.subscribe();
    let mut cur_b = commands.subscribe();

    assert!(!handle_kick(&reg, &mut commands, "mallory".to_string()), "unknown names publish nothing");
    assert!(handle_kick(&reg, &mut commands, "alice".to_string()));

    let i = match commands.poll(&mut cur_a) {
        BusPoll::Ready(i) => i,
        other => panic!("Expected the kick, got {:?}", other),
    };
    let farewell = a.on_admin(commands.get(i));
    assert!(matches!(farewell.unwrap().get_type(), MessageTypes::Error));
    assert_eq!(a.current_phase(), ConnPhase::Draining);

    let j = match commands.poll(&mut cur_b) {
        BusPoll::Ready(j) => j,
        other => panic!("Expected the kick, got {:?}", other),
    };
    assert!(b.on_admin(commands.get(j)).is_none());
    assert_eq!(b.current_phase(), ConnPhase::Active, "other connections are unaffected");

    let leave = a.finish(&mut reg);
    assert_eq!(a.current_phase(), ConnPhase::Closed);
    assert!(a.display_name().is_none());
    assert!(!reg.contains(&"alice".to_string()), "a closed connection leaves no name behind");
    assert!(reg.contains(&"bob".to_string()));
    let leave = leave.unwrap();
    assert!(matches!(leave.get_type(), MessageTypes::Leave));
    assert_eq!(leave.get_content().as_ref().unwrap(), b"alice");
}

#[test]
fn test_two_clients_chat_scenario() {
    let mut reg = UserRegistry::new();
    let mut hub: Bus<(ChatMessage, u64)> = Bus::new(hub_capacity(2));
    let mut alice = UserConnection::new(1, MAX_MESSAGES, WINDOW_MS, 0);
    let mut bob = UserConnection::new(2, MAX_MESSAGES, WINDOW_MS, 0);
    join(&mut alice, &mut reg, "alice");
    join(&mut bob, &mut reg, "bob");
    let mut cur_alice = hub.subscribe();
    let mut cur_bob = hub.subscribe();

    let actions = bob.process_message(&mut reg, chat_msg("hi"), 5);
    assert_eq!(actions.len(), 1);
    match actions.into_iter().next().unwrap() {
        ConnAction::Publish(m) => hub.publish((m, bob.conn_id())),
        _ => panic!("A chat frame is published"),
    }

    // Alice's socket receives a frame decoding to a ChatMessage carrying "hi".
    let i = match hub.poll(&mut cur_alice) {
        BusPoll::Ready(i) => i,
        other => panic!("Expected a delivery, got {:?}", other),
    };
    let (m, origin) = hub.get(i);
    let outgoing = alice.on_delivery(m.clone(), *origin).expect("alice hears bob");
    let wire = outgoing.encode();
    let (received, _) = ChatMessage::decode(&wire).unwrap();
    assert!(matches!(received.get_type(), MessageTypes::ChatMessage));
    assert_eq!(received.get_content().as_ref().unwrap(), b"hi");

    // Bob's socket receives nothing for his own publish.
    let j = match hub.poll(&mut cur_bob) {
        BusPoll::Ready(j) => j,
        other => panic!("Expected a delivery, got {:?}", other),
    };
    let (m, origin) = hub.get(j);
    assert!(bob.on_delivery(m.clone(), *origin).is_none());
}

#[test]
fn test_second_join_of_taken_name_gets_error_and_no_name() {
    let mut reg = UserRegistry::new();
    let mut first = UserConnection::new(1, MAX_MESSAGES, WINDOW_MS, 0);
    let mut second = UserConnection::new(2, MAX_MESSAGES, WINDOW_MS, 0);
    join(&mut first, &mut reg, "alice");

    let actions = second.process_message(&mut reg, join_msg("alice"), 1);
    assert_eq!(actions.len(), 1);
    match &actions[0] {
        ConnAction::SendFrame(f) => assert!(matches!(f.get_type(), MessageTypes::Error)),
        _ => panic!("Expected an Error frame"),
    }
    assert!(second.display_name().is_none(), "the rejected connection keeps no name");
    assert_eq!(reg.len(), 1);
}

#[test]
fn test_rename_swaps_names_atomically() {
    let mut reg = UserRegistry::new();
    let mut conn = UserConnection::new(1, MAX_MESSAGES, WINDOW_MS, 0);
    join(&mut conn, &mut reg, "alice");

    let rename = ChatMessage::try_new(MessageTypes::UserRename, Some(b"carol".to_vec())).unwrap();
    let actions = conn.process_message(&mut reg, rename, 1);
    assert!(actions.is_empty());
    assert_eq!(conn.display_name().as_ref().unwrap(), "carol");
    assert!(!reg.contains(&"alice".to_string()));
    assert!(reg.contains(&"carol".to_string()));
}

#[test]
fn test_connection_limit_admits_up_to_max() {
    let mut server = ChatServer::new(2);
    assert!(server.try_accept());
    assert!(server.try_accept());
    assert!(!server.try_accept(), "the third concurrent connection is rejected");
    server.connection_closed();
    assert!(server.try_accept());
}

#[test]
fn test_disconnect_cleanup_publishes_leave_once() {
    let mut reg = UserRegistry::new();
    let mut conn = UserConnection::new(7, MAX_MESSAGES, WINDOW_MS, 0);
    join(&mut conn, &mut reg, "dave");
    conn.begin_drain();
    assert_eq!(conn.current_phase(), ConnPhase::Draining);
    let leave = conn.finish(&mut reg).expect("a named connection announces its leave");
    assert!(matches!(leave.get_type(), MessageTypes::Leave));
    assert!(!reg.contains(&"dave".to_string()));

    // A connection that never joined leaves silently.
    let mut anon = UserConnection::new(8, MAX_MESSAGES, WINDOW_MS, 0);
    anon.begin_drain();
    assert!(anon.finish(&mut reg).is_none());
}

#[test]
fn test_join_with_invalid_utf8_is_rejected() {
    let mut reg = UserRegistry::new();
    let mut conn = UserConnection::new(9, MAX_MESSAGES, WINDOW_MS, 0);
    let bad = ChatMessage::try_new(MessageTypes::Join, Some(vec![0xff, 0xfe, 0xfd])).unwrap();
    let actions = conn.process_message(&mut reg, bad, 0);
    assert_eq!(actions.len(), 1);
    match &actions[0] {
        ConnAction::SendFrame(f) => assert!(matches!(f.get_type(), MessageTypes::Error)),
        _ => panic!("Expected an Error frame"),
    }
    assert!(conn.display_name().is_none());
    assert_eq!(reg.len(), 0);
}

#[test]
fn test_kick_ignores_unnamed_connections() {
    let mut anon = UserConnection::new(11, MAX_MESSAGES, WINDOW_MS, 0);
    assert!(anon.on_admin(&ServerCommand::Kick("alice".to_string())).is_none());
    assert_eq!(anon.current_phase(), ConnPhase::Connecting);
}

#[test]
fn test_ban_set_tracks_addresses() {
    let mut bans = BanSet::new();
    let here = IpAddress { a: 10, b: 0, c: 0, d: 1 };
    let there = IpAddress { a: 10, b: 0, c: 0, d: 2 };
    assert!(!bans.is_banned(here));
    bans.ban(here);
    bans.ban(here);
    assert!(bans.is_banned(here));
    assert!(!bans.is_banned(there));
    assert_eq!(bans.banned_list(), vec![here]);
    assert!(bans.unban(here));
    assert!(!bans.unban(here));
    assert!(!bans.is_banned(here));
    assert!(bans.banned_list().is_empty());
}
