use game_sync::client::{
    change_nickname, connect_to_game, move_player, send_chat_message, websocket_url, Effect, GameClient, Location,
};
use game_sync::coord::Coord;
use game_sync::message::{ClientMessage, ServerMessage};
use game_sync::player::Player;

fn c(value: f32) -> Coord {
    Coord::from_bits(value.to_bits())
}

fn location(hostname: &str, protocol: &str, port: Option<&str>) -> Location {
    Location { hostname: hostname.to_string(), protocol: protocol.to_string(), port: port.map(|p| p.to_string()) }
}

fn player(id: &str, nickname: &str) -> Player {
    Player {
        id: id.to_string(),
        nickname: nickname.to_string(),
        x: c(100.0),
        y: c(200.0),
        color: "#FECA57".to_string(),
        last_seen: 5,
    }
}

fn known(client: &GameClient) -> Vec<(String, String)> {
    let mut known: Vec<(String, String)> = client.players().iter().map(|p| (p.id.clone(), p.nickname.clone())).collect();
    known.sort();
    known
}

fn pair(id: &str, nickname: &str) -> (String, String) {
    (id.to_string(), nickname.to_string())
}

#[test]
fn without_a_location_the_channel_is_local() {
    assert_eq!(websocket_url(None), "ws://127.0.0.1:8080/ws");
}

#[test]
fn a_local_page_connects_to_the_local_server() {
    assert_eq!(websocket_url(Some(&location("localhost", "http:", Some("3000")))), "ws://127.0.0.1:8080/ws");
    assert_eq!(websocket_url(Some(&location("127.0.0.1", "https:", None))), "ws://127.0.0.1:8080/ws");
}

#[test]
fn a_remote_page_connects_to_its_own_host() {
    assert_eq!(websocket_url(Some(&location("game.example.org", "https:", None))), "wss://game.example.org/ws");
    assert_eq!(websocket_url(Some(&location("game.example.org", "http:", None))), "ws://game.example.org/ws");
    assert_eq!(websocket_url(Some(&location("game.example.org", "file:", None))), "ws://game.example.org/ws");
}

#[test]
fn a_remote_page_keeps_its_port() {
    assert_eq!(
        websocket_url(Some(&location("game.example.org", "https:", Some("8443")))),
        "wss://game.example.org:8443/ws"
    );
    assert_eq!(websocket_url(Some(&location("game.example.org", "http:", Some("")))), "ws://game.example.org/ws");
    assert_eq!(websocket_url(Some(&location("LOCALHOST", "http:", Some("80")))), "ws://LOCALHOST:80/ws");
}

#[test]
fn a_new_client_knows_nobody_and_sends_nothing() {
    let client = GameClient::new();
    assert!(!client.is_connected());
    assert!(client.my_player_id().is_none());
    assert!(client.players().is_empty());
    assert!(client.send_message(ClientMessage::Chat { message: "hi".to_string() }).is_none());
}

#[test]
fn connecting_gives_the_address_and_the_join() {
    let client = GameClient::new();
    let connection = client.connect(Some(&location("game.example.org", "https:", None)), Some("Ann".to_string()));
    assert_eq!(connection.url, "wss://game.example.org/ws");
    match connection.join {
        ClientMessage::Join { nickname } => assert_eq!(nickname, Some("Ann".to_string())),
        other => panic!("unexpected {:?}", other),
    }
    assert!(!client.is_connected());
    assert!(client.send_message(ClientMessage::Chat { message: "hi".to_string() }).is_none());
}

#[test]
fn an_opened_socket_lets_messages_out() {
    let mut client = GameClient::new();
    client.connect(None, None);
    client.socket_opened(true);
    assert!(client.is_connected());
    match client.send_message(ClientMessage::Chat { message: "hi".to_string() }) {
        Some(ClientMessage::Chat { message }) => assert_eq!(message, "hi"),
        other => panic!("unexpected {:?}", other),
    }
}

#[test]
fn a_failed_opening_leaves_the_client_without_a_socket() {
    let mut client = GameClient::new();
    client.receive(ServerMessage::PlayerJoined { player: player("a", "Ann") });
    client.connect(None, None);
    client.socket_opened(false);
    assert!(!client.is_connected());
    assert!(client.send_message(ClientMessage::Chat { message: "hi".to_string() }).is_none());
    assert_eq!(known(&client), vec![pair("a", "Ann")]);
}

#[test]
fn a_failed_opening_leaves_the_socket_that_was_there() {
    let mut client = GameClient::new();
    client.socket_opened(true);
    client.connect(None, None);
    client.socket_opened(false);
    assert!(client.is_connected());
}

#[test]
fn the_game_starts_with_or_without_a_client() {
    let mut slot: Option<GameClient> = None;
    assert!(move_player(&slot, c(1.0), c(2.0)).is_none());
    assert!(send_chat_message(&slot, "hi".to_string()).is_none());
    assert!(change_nickname(&slot, "Ann".to_string()).is_none());
    let connection = connect_to_game(&mut slot, None, None);
    assert_eq!(connection.url, "ws://127.0.0.1:8080/ws");
    match connection.join {
        ClientMessage::Join { nickname } => assert!(nickname.is_none()),
        other => panic!("unexpected {:?}", other),
    }
    assert!(!slot.as_ref().unwrap().is_connected());
    slot.as_mut().unwrap().socket_opened(true);
    slot.as_mut().unwrap().receive(ServerMessage::PlayerJoined { player: player("a", "Ann") });
    let again = connect_to_game(&mut slot, Some(&location("h", "https:", None)), Some("Bob".to_string()));
    assert_eq!(again.url, "wss://h/ws");
    assert!(slot.as_ref().unwrap().is_connected());
    assert_eq!(known(slot.as_ref().unwrap()), vec![pair("a", "Ann")]);
}

#[test]
fn a_started_game_lets_messages_out() {
    let mut slot: Option<GameClient> = Some(GameClient::new());
    assert!(move_player(&slot, c(1.0), c(2.0)).is_none());
    connect_to_game(&mut slot, None, None);
    assert!(move_player(&slot, c(1.0), c(2.0)).is_none());
    slot.as_mut().unwrap().socket_opened(true);
    match move_player(&slot, c(1.5), c(-2.0)) {
        Some(ClientMessage::Move { x, y }) => assert_eq!((x, y), (c(1.5), c(-2.0))),
        other => panic!("unexpected {:?}", other),
    }
    match send_chat_message(&slot, "hi".to_string()) {
        Some(ClientMessage::Chat { message }) => assert_eq!(message, "hi"),
        other => panic!("unexpected {:?}", other),
    }
    match change_nickname(&slot, "Ann".to_string()) {
        Some(ClientMessage::ChangeNick { nickname }) => assert_eq!(nickname, "Ann"),
        other => panic!("unexpected {:?}", other),
    }
}

#[test]
fn a_welcome_replaces_what_the_client_knew() {
    let mut client = GameClient::new();
    client.receive(ServerMessage::PlayerJoined { player: player("old", "Old") });
    let effect = client.receive(ServerMessage::Welcome {
        your_id: "a".to_string(),
        players: vec![player("a", "Ann"), player("b", "Bob")],
    });
    assert!(matches!(effect, Effect::Redraw));
    assert_eq!(client.my_player_id(), Some("a".to_string()));
    assert_eq!(known(&client), vec![pair("a", "Ann"), pair("b", "Bob")]);
}

#[test]
fn of_two_welcomed_players_with_one_id_the_later_stays() {
    let mut client = GameClient::new();
    client.receive(ServerMessage::Welcome {
        your_id: "a".to_string(),
        players: vec![player("a", "First"), player("b", "Bob"), player("a", "Second")],
    });
    assert_eq!(known(&client), vec![pair("a", "Second"), pair("b", "Bob")]);
}

#[test]
fn players_come_and_go() {
    let mut client = GameClient::new();
    assert!(matches!(client.receive(ServerMessage::PlayerJoined { player: player("a", "Ann") }), Effect::Redraw));
    client.receive(ServerMessage::PlayerJoined { player: player("b", "Bob") });
    client.receive(ServerMessage::PlayerJoined { player: player("c", "Cid") });
    client.receive(ServerMessage::PlayerJoined { player: player("b", "Bobby") });
    assert_eq!(known(&client), vec![pair("a", "Ann"), pair("b", "Bobby"), pair("c", "Cid")]);
    assert!(matches!(client.receive(ServerMessage::PlayerLeft { player_id: "a".to_string() }), Effect::Redraw));
    assert!(matches!(client.receive(ServerMessage::PlayerLeft { player_id: "nobody".to_string() }), Effect::Redraw));
    assert_eq!(known(&client), vec![pair("b", "Bobby"), pair("c", "Cid")]);
}

#[test]
fn a_known_player_moves_to_where_the_server_says() {
    let mut client = GameClient::new();
    client.receive(ServerMessage::PlayerJoined { player: player("a", "Ann") });
    client.receive(ServerMessage::PlayerJoined { player: player("b", "Bob") });
    let effect = client.receive(ServerMessage::PlayerMoved { player_id: "a".to_string(), x: c(900.0), y: c(-3.0) });
    assert!(matches!(effect, Effect::Redraw));
    let moved = client.players().iter().find(|p| p.id == "a").unwrap();
    assert_eq!((moved.x, moved.y), (c(900.0), c(-3.0)));
    assert_eq!((moved.nickname.as_str(), moved.color.as_str(), moved.last_seen), ("Ann", "#FECA57", 5));
    let other = client.players().iter().find(|p| p.id == "b").unwrap();
    assert_eq!((other.x, other.y), (c(100.0), c(200.0)));
}

#[test]
fn the_move_of_an_unknown_player_changes_nothing() {
    let mut client = GameClient::new();
    client.receive(ServerMessage::PlayerJoined { player: player("a", "Ann") });
    let effect = client.receive(ServerMessage::PlayerMoved { player_id: "z".to_string(), x: c(1.0), y: c(1.0) });
    assert!(matches!(effect, Effect::Redraw));
    assert_eq!(known(&client), vec![pair("a", "Ann")]);
    assert_eq!(client.players()[0].x, c(100.0));
}

#[test]
fn chat_is_shown_and_changes_nothing() {
    let mut client = GameClient::new();
    client.receive(ServerMessage::PlayerJoined { player: player("a", "Ann") });
    let effect = client.receive(ServerMessage::ChatMessage {
        player_id: "a".to_string(),
        nickname: "Anna".to_string(),
        message: "hi".to_string(),
        timestamp: 77,
    });
    match effect {
        Effect::Chat { nickname, message, timestamp } => {
            assert_eq!((nickname.as_str(), message.as_str(), timestamp), ("Anna", "hi", 77));
        },
        other => panic!("unexpected {:?}", other),
    }
    assert_eq!(known(&client), vec![pair("a", "Ann")]);
}

#[test]
fn an_error_is_reported_and_changes_nothing() {
    let mut client = GameClient::new();
    client.receive(ServerMessage::PlayerJoined { player: player("a", "Ann") });
    match client.receive(ServerMessage::Error { message: "full".to_string() }) {
        Effect::Fault { message } => assert_eq!(message, "full"),
        other => panic!("unexpected {:?}", other),
    }
    assert_eq!(known(&client), vec![pair("a", "Ann")]);
    assert!(client.my_player_id().is_none());
}
