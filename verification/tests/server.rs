use game_sync::bus::SubscriberId;
use game_sync::coord::Coord;
use game_sync::message::ServerMessage;
use game_sync::player::Player;
use game_sync::registry::RegistryError;
use game_sync::server::{GameServer, BUS_CAPACITY};

fn player(id: &str, nickname: &str) -> Player {
    Player {
        id: id.to_string(),
        nickname: nickname.to_string(),
        x: Coord::from_whole(100),
        y: Coord::from_whole(200),
        color: "#4ECDC4".to_string(),
        last_seen: 5,
    }
}

fn c(value: f32) -> Coord {
    Coord::from_bits(value.to_bits())
}

fn drain(server: &mut GameServer, subscriber: SubscriberId) -> Vec<ServerMessage> {
    let mut messages = Vec::new();
    while let Some(message) = server.next_message(subscriber) {
        messages.push(message);
    }
    messages
}

fn welcome_ids(message: &ServerMessage) -> (String, Vec<String>) {
    match message {
        ServerMessage::Welcome { your_id, players } => {
            let mut ids: Vec<String> = players.iter().map(|p| p.id.clone()).collect();
            ids.sort();
            (your_id.clone(), ids)
        },
        other => panic!("no welcome: {:?}", other),
    }
}

#[test]
fn the_bus_of_a_server_holds_a_thousand_messages() {
    assert_eq!(BUS_CAPACITY, 1000);
    let mut server = GameServer::new();
    let slow = server.subscribe().unwrap();
    server.add_player(player("a", "Ann")).unwrap();
    for n in 0..1001 {
        server.send_chat_at("a", n.to_string(), n);
    }
    let messages = drain(&mut server, slow);
    assert_eq!(messages.len(), 1000);
    match &messages[0] {
        ServerMessage::ChatMessage { timestamp, .. } => assert_eq!(*timestamp, 1),
        other => panic!("unexpected {:?}", other),
    }
}

#[test]
fn adding_a_player_registers_it_and_announces_nothing() {
    let mut server = GameServer::new();
    let watcher = server.subscribe().unwrap();
    assert_eq!(server.add_player(player("a", "Ann")), Ok("a".to_string()));
    assert!(drain(&mut server, watcher).is_empty());
    let registered = server.player("a").unwrap();
    assert_eq!(registered.nickname, "Ann");
    assert_eq!(registered.color, "#4ECDC4");
    assert_eq!(registered.last_seen, 5);
}

#[test]
fn a_player_is_announced_by_who_adds_it() {
    let mut server = GameServer::new();
    let watcher = server.subscribe().unwrap();
    server.add_player(player("a", "Ann")).unwrap();
    assert_eq!(server.broadcast_message(ServerMessage::PlayerJoined { player: player("a", "Ann") }), 1);
    let messages = drain(&mut server, watcher);
    assert_eq!(messages.len(), 1);
    match &messages[0] {
        ServerMessage::PlayerJoined { player } => {
            assert_eq!(player.id, "a");
            assert_eq!(player.nickname, "Ann");
        },
        other => panic!("unexpected {:?}", other),
    }
}

#[test]
fn adding_a_taken_id_announces_nothing() {
    let mut server = GameServer::new();
    server.add_player(player("a", "Ann")).unwrap();
    let watcher = server.subscribe().unwrap();
    assert_eq!(server.add_player(player("a", "Bob")), Err(RegistryError::DuplicateId));
    assert!(drain(&mut server, watcher).is_empty());
    assert_eq!(server.player("a").unwrap().nickname, "Ann");
}

#[test]
fn registered_players_have_distinct_ids() {
    let mut server = GameServer::new();
    for round in 0..3 {
        for n in 0..20 {
            let _ = server.add_player(player(&format!("id{}", n), &format!("round{}", round)));
        }
    }
    let (_, ids) = welcome_ids(&server.get_welcome_message("id0"));
    assert_eq!(ids.len(), 20);
    let mut unique = ids.clone();
    unique.dedup();
    assert_eq!(unique, ids);
    assert_eq!(server.player("id3").unwrap().nickname, "round0");
}

#[test]
fn removing_nobody_is_silent() {
    let mut server = GameServer::new();
    let watcher = server.subscribe().unwrap();
    server.add_player(player("a", "Ann")).unwrap();
    drain(&mut server, watcher);
    assert!(!server.remove_player("nobody"));
    assert!(drain(&mut server, watcher).is_empty());
    assert!(server.player("a").is_some());
}

#[test]
fn removing_somebody_is_announced_once() {
    let mut server = GameServer::new();
    let watcher = server.subscribe().unwrap();
    server.add_player(player("a", "Ann")).unwrap();
    server.add_player(player("b", "Bob")).unwrap();
    drain(&mut server, watcher);
    assert!(server.remove_player("a"));
    let messages = drain(&mut server, watcher);
    assert_eq!(messages.len(), 1);
    match &messages[0] {
        ServerMessage::PlayerLeft { player_id } => assert_eq!(player_id, "a"),
        other => panic!("unexpected {:?}", other),
    }
    assert!(server.player("a").is_none());
    assert!(server.player("b").is_some());
    assert!(!server.remove_player("a"));
    assert!(drain(&mut server, watcher).is_empty());
}

#[test]
fn a_move_is_clamped_and_announced_as_stored() {
    let mut server = GameServer::new();
    let watcher = server.subscribe().unwrap();
    server.add_player(player("a", "Ann")).unwrap();
    drain(&mut server, watcher);
    assert!(server.move_player_at("a", c(1.0e9), c(-7.5), 42));
    let messages = drain(&mut server, watcher);
    assert_eq!(messages.len(), 1);
    match &messages[0] {
        ServerMessage::PlayerMoved { player_id, x, y } => {
            assert_eq!(player_id, "a");
            assert_eq!(f32::from_bits(x.to_bits()), 800.0);
            assert_eq!(f32::from_bits(y.to_bits()), 0.0);
        },
        other => panic!("unexpected {:?}", other),
    }
    let stored = server.player("a").unwrap();
    assert_eq!((stored.x, stored.y, stored.last_seen), (c(800.0), c(0.0), 42));
}

#[test]
fn moves_stay_on_the_field_whatever_is_asked() {
    let mut server = GameServer::new();
    server.add_player(player("a", "Ann")).unwrap();
    let asked = [
        0.0f32, -0.0, 12.5, 400.0, 400.25, 800.0, 800.25, -1.0, 1.0e20, -1.0e20, f32::MAX, f32::MIN, f32::INFINITY,
        f32::NEG_INFINITY, f32::MIN_POSITIVE,
    ];
    for x in asked {
        for y in asked {
            assert!(server.move_player_at("a", c(x), c(y), 1));
            let stored = server.player("a").unwrap();
            let (sx, sy) = (f32::from_bits(stored.x.to_bits()), f32::from_bits(stored.y.to_bits()));
            assert!((0.0..=800.0).contains(&sx), "x {} of {}", sx, x);
            assert!((0.0..=400.0).contains(&sy), "y {} of {}", sy, y);
        }
    }
}

#[test]
fn a_move_of_nobody_is_silent() {
    let mut server = GameServer::new();
    let watcher = server.subscribe().unwrap();
    assert!(!server.move_player_at("a", c(1.0), c(1.0), 42));
    assert!(!server.move_player("a", c(1.0), c(1.0)));
    assert!(drain(&mut server, watcher).is_empty());
}

#[test]
fn a_move_now_carries_the_time_of_the_clock() {
    let mut server = GameServer::new();
    server.add_player(player("a", "Ann")).unwrap();
    assert!(server.move_player("a", c(10.0), c(20.0)));
    let stored = server.player("a").unwrap();
    assert_eq!((stored.x, stored.y), (c(10.0), c(20.0)));
    assert!(stored.last_seen > 1_600_000_000);
}

#[test]
fn chat_goes_out_under_the_current_nickname() {
    let mut server = GameServer::new();
    let watcher = server.subscribe().unwrap();
    server.add_player(player("a", "Ann")).unwrap();
    assert!(server.rename_player("a", "Anna".to_string()));
    drain(&mut server, watcher);
    assert!(server.send_chat_at("a", "hello".to_string(), 1234));
    let messages = drain(&mut server, watcher);
    assert_eq!(messages.len(), 1);
    match &messages[0] {
        ServerMessage::ChatMessage { player_id, nickname, message, timestamp } => {
            assert_eq!(player_id, "a");
            assert_eq!(nickname, "Anna");
            assert_eq!(message, "hello");
            assert_eq!(*timestamp, 1234);
        },
        other => panic!("unexpected {:?}", other),
    }
}

#[test]
fn chat_of_nobody_is_silent() {
    let mut server = GameServer::new();
    let watcher = server.subscribe().unwrap();
    assert!(!server.send_chat_at("a", "hello".to_string(), 1));
    assert!(!server.send_chat("a", "hello".to_string()));
    assert!(drain(&mut server, watcher).is_empty());
}

#[test]
fn chat_now_carries_the_time_of_the_clock() {
    let mut server = GameServer::new();
    let watcher = server.subscribe().unwrap();
    server.add_player(player("a", "Ann")).unwrap();
    drain(&mut server, watcher);
    assert!(server.send_chat("a", "hello".to_string()));
    match &drain(&mut server, watcher)[0] {
        ServerMessage::ChatMessage { timestamp, message, .. } => {
            assert!(*timestamp > 1_600_000_000);
            assert_eq!(message, "hello");
        },
        other => panic!("unexpected {:?}", other),
    }
}

#[test]
fn renaming_is_not_announced() {
    let mut server = GameServer::new();
    let watcher = server.subscribe().unwrap();
    server.add_player(player("a", "Ann")).unwrap();
    drain(&mut server, watcher);
    assert!(server.rename_player("a", "Anna".to_string()));
    assert!(!server.rename_player("b", "Bob".to_string()));
    assert!(drain(&mut server, watcher).is_empty());
    assert_eq!(server.player("a").unwrap().nickname, "Anna");
}

#[test]
fn the_welcome_lists_everybody_with_the_latest_attributes() {
    let mut server = GameServer::new();
    server.add_player(player("b", "Bob")).unwrap();
    server.add_player(player("c", "Cid")).unwrap();
    server.move_player_at("b", c(10.0), c(20.0), 9);
    server.rename_player("c", "Cyd".to_string());
    server.add_player(player("a", "Ann")).unwrap();
    let welcome = server.get_welcome_message("a");
    let (your_id, ids) = welcome_ids(&welcome);
    assert_eq!(your_id, "a");
    assert_eq!(ids, vec!["a", "b", "c"]);
    if let ServerMessage::Welcome { players, .. } = welcome {
        for listed in players {
            match listed.id.as_str() {
                "a" => assert_eq!(listed.nickname, "Ann"),
                "b" => assert_eq!((listed.x, listed.y, listed.last_seen), (c(10.0), c(20.0), 9)),
                "c" => assert_eq!(listed.nickname, "Cyd"),
                other => panic!("unexpected player {}", other),
            }
        }
    }
}

#[test]
fn a_broadcast_reaches_the_subscribers_there_are() {
    let mut server = GameServer::new();
    assert_eq!(server.broadcast_message(ServerMessage::Error { message: "lost".to_string() }), 0);
    let a = server.subscribe().unwrap();
    let b = server.subscribe().unwrap();
    assert_eq!(server.broadcast_message(ServerMessage::Error { message: "kept".to_string() }), 2);
    for subscriber in [a, b] {
        let messages = drain(&mut server, subscriber);
        assert_eq!(messages.len(), 1);
        match &messages[0] {
            ServerMessage::Error { message } => assert_eq!(message, "kept"),
            other => panic!("unexpected {:?}", other),
        }
    }
    assert!(server.unsubscribe(a));
    assert!(!server.unsubscribe(a));
    assert_eq!(server.broadcast_message(ServerMessage::Error { message: "one".to_string() }), 1);
}

#[test]
fn a_copy_of_a_message_holds_the_same() {
    let welcome = ServerMessage::Welcome { your_id: "a".to_string(), players: vec![player("a", "Ann"), player("b", "Bob")] };
    match welcome.clone() {
        ServerMessage::Welcome { your_id, players } => {
            assert_eq!(your_id, "a");
            assert_eq!(players.len(), 2);
            assert_eq!(players[1].nickname, "Bob");
        },
        other => panic!("unexpected {:?}", other),
    }
    let chat = ServerMessage::ChatMessage {
        player_id: "a".to_string(),
        nickname: "Ann".to_string(),
        message: "hi".to_string(),
        timestamp: 3,
    };
    match chat.clone() {
        ServerMessage::ChatMessage { player_id, nickname, message, timestamp } => {
            assert_eq!((player_id.as_str(), nickname.as_str(), message.as_str(), timestamp), ("a", "Ann", "hi", 3));
        },
        other => panic!("unexpected {:?}", other),
    }
}
