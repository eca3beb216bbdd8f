use game_sync::coord::Coord;
use game_sync::player::{nickname_from_id, palette_color, Player, Spawn};

const PALETTE: [&str; 6] = ["#FF6B6B", "#4ECDC4", "#45B7D1", "#96CEB4", "#FECA57", "#FF9FF3"];

fn spawn(id: &str, place: u32) -> Spawn {
    Spawn { id: id.to_string(), place, x: Coord::from_whole(100), y: Coord::from_whole(200) }
}

#[test]
fn the_palette_has_its_six_colours_in_order() {
    for (place, color) in PALETTE.iter().enumerate() {
        assert_eq!(palette_color(place as u32), *color);
    }
}

#[test]
fn a_nickname_from_an_id_takes_six_characters() {
    assert_eq!(nickname_from_id("0123456789ab-cdef"), "Player012345");
    assert_eq!(nickname_from_id("abcdef"), "Playerabcdef");
    assert_eq!(nickname_from_id("abc"), "Playerabc");
    assert_eq!(nickname_from_id(""), "Player");
}

#[test]
fn a_nickname_from_an_id_counts_characters() {
    assert_eq!(nickname_from_id("äöüßéèñ"), "Playeräöüßéè");
}

#[test]
fn an_assembled_player_keeps_the_nickname_it_brought() {
    let player = Player::assemble(spawn("1b9d6bcd-bbfd-4b2d-9b5d-ab8dfbbd4bed", 2), Some("Ann".to_string()), 77);
    assert_eq!(player.id, "1b9d6bcd-bbfd-4b2d-9b5d-ab8dfbbd4bed");
    assert_eq!(player.nickname, "Ann");
    assert_eq!(player.color, "#45B7D1");
    assert_eq!(f32::from_bits(player.x.to_bits()), 100.0);
    assert_eq!(f32::from_bits(player.y.to_bits()), 200.0);
    assert_eq!(player.last_seen, 77);
}

#[test]
fn an_assembled_player_without_a_nickname_gets_one_from_its_id() {
    let player = Player::assemble(spawn("1b9d6bcd-bbfd-4b2d-9b5d-ab8dfbbd4bed", 5), None, 0);
    assert_eq!(player.nickname, "Player1b9d6b");
    assert_eq!(player.color, "#FF9FF3");
}

#[test]
fn an_empty_nickname_is_a_nickname() {
    let player = Player::assemble(spawn("1b9d6bcd", 0), Some(String::new()), 0);
    assert_eq!(player.nickname, "");
}

#[test]
fn a_drawn_spawn_is_in_bounds() {
    for _ in 0..500 {
        let spawn = Spawn::draw();
        assert_eq!(spawn.id.len(), 36);
        assert!(spawn.place < 6);
        let x = f32::from_bits(spawn.x.to_bits());
        let y = f32::from_bits(spawn.y.to_bits());
        assert!((50.0..750.0).contains(&x), "{}", x);
        assert!((50.0..350.0).contains(&y), "{}", y);
        assert_eq!(x.fract(), 0.0);
        assert_eq!(y.fract(), 0.0);
    }
}

#[test]
fn drawn_ids_differ() {
    let a = Spawn::draw();
    let b = Spawn::draw();
    assert_ne!(a.id, b.id);
}

#[test]
fn drawn_ids_are_hyphenated() {
    let id = Spawn::draw().id;
    let hyphens: Vec<usize> = id.char_indices().filter(|(_, c)| *c == '-').map(|(i, _)| i).collect();
    assert_eq!(hyphens, vec![8, 13, 18, 23]);
    assert!(id.chars().all(|c| c == '-' || c.is_ascii_hexdigit()));
}

#[test]
fn a_new_player_is_on_the_field_with_a_colour_of_the_palette() {
    for _ in 0..200 {
        let player = Player::new(None);
        assert_eq!(player.id.len(), 36);
        assert_eq!(player.nickname, format!("Player{}", &player.id[..6]));
        assert!(PALETTE.contains(&player.color.as_str()));
        let x = f32::from_bits(player.x.to_bits());
        let y = f32::from_bits(player.y.to_bits());
        assert!((50.0..750.0).contains(&x));
        assert!((50.0..350.0).contains(&y));
        assert!(player.last_seen > 1_600_000_000);
    }
}

#[test]
fn a_new_player_keeps_the_nickname_it_brought() {
    let player = Player::new(Some("Ann".to_string()));
    assert_eq!(player.nickname, "Ann");
}

#[test]
fn a_copy_of_a_player_holds_the_same() {
    let player = Player::new(Some("Ann".to_string()));
    let copy = player.clone();
    assert_eq!(copy.id, player.id);
    assert_eq!(copy.nickname, player.nickname);
    assert_eq!(copy.x, player.x);
    assert_eq!(copy.y, player.y);
    assert_eq!(copy.color, player.color);
    assert_eq!(copy.last_seen, player.last_seen);
}
