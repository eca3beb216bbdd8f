use game_sync::coord::Coord;
use game_sync::player::Player;
use game_sync::registry::{Registry, RegistryError};

fn player(id: &str, nickname: &str) -> Player {
    Player {
        id: id.to_string(),
        nickname: nickname.to_string(),
        x: Coord::from_whole(100),
        y: Coord::from_whole(200),
        color: "#FF6B6B".to_string(),
        last_seen: 5,
    }
}

fn c(value: f32) -> Coord {
    Coord::from_bits(value.to_bits())
}

fn ids(registry: &Registry) -> Vec<String> {
    let mut ids: Vec<String> = registry.snapshot().into_iter().map(|p| p.id).collect();
    ids.sort();
    ids
}

#[test]
fn a_new_registry_is_empty() {
    let registry = Registry::new();
    assert!(registry.snapshot().is_empty());
    assert!(registry.get("a").is_none());
}

#[test]
fn adding_a_player_returns_its_id() {
    let mut registry = Registry::new();
    assert_eq!(registry.add_player(player("a", "Ann")), Ok("a".to_string()));
    let found = registry.get("a").unwrap();
    assert_eq!(found.id, "a");
    assert_eq!(found.nickname, "Ann");
}

#[test]
fn adding_a_taken_id_is_turned_down_and_changes_nothing() {
    let mut registry = Registry::new();
    registry.add_player(player("a", "Ann")).unwrap();
    assert_eq!(registry.add_player(player("a", "Bob")), Err(RegistryError::DuplicateId));
    assert_eq!(registry.get("a").unwrap().nickname, "Ann");
    assert_eq!(registry.snapshot().len(), 1);
}

#[test]
fn removing_says_whether_there_was_a_player() {
    let mut registry = Registry::new();
    registry.add_player(player("a", "Ann")).unwrap();
    assert!(!registry.remove_player("b"));
    assert!(registry.remove_player("a"));
    assert!(!registry.remove_player("a"));
    assert!(registry.get("a").is_none());
    assert!(registry.snapshot().is_empty());
}

#[test]
fn moving_stores_the_clamped_position_and_the_time() {
    let mut registry = Registry::new();
    registry.add_player(player("a", "Ann")).unwrap();
    assert_eq!(registry.move_player("a", c(10.0), c(20.0), 99), Some((c(10.0), c(20.0))));
    let moved = registry.get("a").unwrap();
    assert_eq!((moved.x, moved.y, moved.last_seen), (c(10.0), c(20.0), 99));
    assert_eq!(registry.move_player("a", c(-3.0), c(1000.0), 100), Some((c(0.0), c(400.0))));
    assert_eq!(registry.move_player("a", c(900.0), c(-1.0), 101), Some((c(800.0), c(0.0))));
    let moved = registry.get("a").unwrap();
    assert_eq!((moved.x, moved.y, moved.last_seen), (c(800.0), c(0.0), 101));
    assert_eq!(moved.nickname, "Ann");
    assert_eq!(moved.color, "#FF6B6B");
}

#[test]
fn moving_nobody_does_nothing() {
    let mut registry = Registry::new();
    registry.add_player(player("a", "Ann")).unwrap();
    assert_eq!(registry.move_player("b", c(10.0), c(20.0), 99), None);
    assert_eq!(ids(&registry), vec!["a"]);
    assert_eq!(registry.get("a").unwrap().last_seen, 5);
}

#[test]
fn renaming_replaces_the_nickname_without_looking_at_it() {
    let mut registry = Registry::new();
    registry.add_player(player("a", "Ann")).unwrap();
    assert!(registry.rename_player("a", "".to_string()));
    assert_eq!(registry.get("a").unwrap().nickname, "");
    assert!(registry.rename_player("a", "<b>Ann</b>".to_string()));
    let renamed = registry.get("a").unwrap();
    assert_eq!(renamed.nickname, "<b>Ann</b>");
    assert_eq!(renamed.last_seen, 5);
    assert!(!registry.rename_player("b", "Bob".to_string()));
    assert!(registry.get("b").is_none());
}

#[test]
fn a_snapshot_lists_every_player_once() {
    let mut registry = Registry::new();
    for n in 0..50 {
        registry.add_player(player(&format!("id-{:02}", n), "x")).unwrap();
    }
    registry.remove_player("id-07");
    let listed = ids(&registry);
    assert_eq!(listed.len(), 49);
    let expected: Vec<String> = (0..50).filter(|n| *n != 7).map(|n| format!("id-{:02}", n)).collect();
    assert_eq!(listed, expected);
}

#[test]
fn a_snapshot_is_a_copy() {
    let mut registry = Registry::new();
    registry.add_player(player("a", "Ann")).unwrap();
    let snapshot = registry.snapshot();
    registry.rename_player("a", "Bob".to_string());
    assert_eq!(snapshot[0].nickname, "Ann");
    assert_eq!(registry.snapshot()[0].nickname, "Bob");
}
