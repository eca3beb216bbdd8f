//! The participants.

use vstd::prelude::*;
use vstd::string::*;
use crate::ambient::{fresh_id, random_below, unix_seconds, ID_LENGTH};
use crate::coord::{encodes_whole, lemma_field_edges, lemma_whole_order, Coord, HEIGHT_BITS, WIDTH_BITS};

verus! {

/// One connected participant.
#[derive(Debug)]
pub struct Player {
    pub id: String,
    pub nickname: String,
    pub x: Coord,
    pub y: Coord,
    pub color: String,
    pub last_seen: u64,
}

/// What a [`Player`] holds, as mathematical values.
pub ghost struct PlayerView {
    pub id: Seq<char>,
    pub nickname: Seq<char>,
    pub x: Coord,
    pub y: Coord,
    pub color: Seq<char>,
    pub last_seen: u64,
}

impl View for Player {
    type V = PlayerView;

    open spec fn view(&self) -> PlayerView {
        PlayerView {
            id: self.id@,
            nickname: self.nickname@,
            x: self.x,
            y: self.y,
            color: self.color@,
            last_seen: self.last_seen,
        }
    }
}

/// The views of a sequence of players, in order.
pub open spec fn views_of(players: Seq<Player>) -> Seq<PlayerView> {
    Seq::new(players.len(), |i: int| players[i]@)
}

impl Clone for Player {
    fn clone(&self) -> (p: Player)
        ensures
            p@ == self@,
    {
        Player {
            id: self.id.clone(),
            nickname: self.nickname.clone(),
            x: self.x,
            y: self.y,
            color: self.color.clone(),
            last_seen: self.last_seen,
        }
    }
}

/// How many colours there are to choose from.
pub const PALETTE_SIZE: u32 = 6;

/// How far a new player stands from the edges of the field, at the least.
pub const MARGIN: u32 = 50;

/// How many whole positions there are to start from, across.
pub const START_COLUMNS: u32 = 700;

/// How many whole positions there are to start from, down.
pub const START_ROWS: u32 = 300;

/// The colours, by their place in the palette.
pub open spec fn palette(place: int) -> Seq<char> {
    if place == 0 {
        "#FF6B6B"@
    } else if place == 1 {
        "#4ECDC4"@
    } else if place == 2 {
        "#45B7D1"@
    } else if place == 3 {
        "#96CEB4"@
    } else if place == 4 {
        "#FECA57"@
    } else {
        "#FF9FF3"@
    }
}

/// The colour at a place of the palette.
pub fn palette_color(place: u32) -> (color: String)
    requires
        place < PALETTE_SIZE,
    ensures
        color@ == palette(place as int),
{
    let text = if place == 0 {
        "#FF6B6B"
    } else if place == 1 {
        "#4ECDC4"
    } else if place == 2 {
        "#45B7D1"
    } else if place == 3 {
        "#96CEB4"
    } else if place == 4 {
        "#FECA57"
    } else {
        "#FF9FF3"
    };
    String::from_str(text)
}

/// How many characters of the id go into a nickname made from it.
pub const NICKNAME_ID_CHARS: usize = 6;

/// The start of an id that goes into the nickname made from it.
pub open spec fn id_head(id: Seq<char>) -> Seq<char> {
    if id.len() <= NICKNAME_ID_CHARS {
        id
    } else {
        id.subrange(0, NICKNAME_ID_CHARS as int)
    }
}

/// The nickname of a player that brought none: the word `Player` and the
/// first six characters of its id.
pub open spec fn default_nickname(id: Seq<char>) -> Seq<char> {
    "Player"@ + id_head(id)
}

/// Makes the nickname of a player that brought none.
pub fn nickname_from_id(id: &str) -> (nickname: String)
    ensures
        nickname@ == default_nickname(id@),
{
    let length = id.unicode_len();
    let taken = if length <= NICKNAME_ID_CHARS {
        length
    } else {
        NICKNAME_ID_CHARS
    };
    let head = id.substring_char(0, taken);
    assert(head@ =~= id_head(id@));
    String::from_str("Player").concat(head)
}

/// What chance decides of a new player: its id, the place of its colour in
/// the palette, and where it starts.
#[derive(Debug)]
pub struct Spawn {
    pub id: String,
    pub place: u32,
    pub x: Coord,
    pub y: Coord,
}

/// What a [`Spawn`] holds, as mathematical values.
pub ghost struct SpawnView {
    pub id: Seq<char>,
    pub place: int,
    pub x: Coord,
    pub y: Coord,
}

impl View for Spawn {
    type V = SpawnView;

    open spec fn view(&self) -> SpawnView {
        SpawnView { id: self.id@, place: self.place as int, x: self.x, y: self.y }
    }
}

impl SpawnView {
    /// Whether the place is one of the palette.
    pub open spec fn valid(self) -> bool {
        0 <= self.place < PALETTE_SIZE
    }

    /// Whether a draw may have given this: a place of the palette, and a
    /// start position that is whole and at least the margin away from every
    /// edge of the field.
    pub open spec fn drawn(self) -> bool {
        &&& self.valid()
        &&& self.id.len() == ID_LENGTH
        &&& starts_across(self.x)
        &&& starts_down(self.y)
    }
}

/// The player that is made of a spawn, of the nickname that the client
/// brought, if any, and of the time.
pub open spec fn assembled(spawn: SpawnView, nickname: Option<Seq<char>>, now: u64) -> PlayerView {
    PlayerView {
        id: spawn.id,
        nickname: match nickname {
            Some(given) => given,
            None => default_nickname(spawn.id),
        },
        x: spawn.x,
        y: spawn.y,
        color: palette(spawn.place),
        last_seen: now,
    }
}

/// The nickname that a client brought, as a mathematical value.
pub open spec fn brought(nickname: Option<String>) -> Option<Seq<char>> {
    match nickname {
        Some(given) => Some(given@),
        None => None,
    }
}

/// A spawn that a draw may have given: the first colour, and the corner
/// of the start area that is nearest to the origin.
pub open spec fn some_spawn() -> SpawnView {
    SpawnView {
        id: Seq::new(ID_LENGTH as nat, |i: int| '0'),
        place: 0,
        x: Coord { bits: 0x4248_0000 },
        y: Coord { bits: 0x4248_0000 },
    }
}

/// There are spawns that a draw may give.
pub proof fn lemma_some_spawn()
    ensures
        some_spawn().drawn(),
{
    vstd::arithmetic::power2::lemma2_to64();
    let spawn = some_spawn();
    assert(crate::coord::shapes_whole(0x4248_0000, 50, 5));
    assert(encodes_whole(spawn.x.bits, 50));
    assert(encodes_whole(spawn.y.bits, 50));
}

/// A start position that a draw may have given lies on the field.
pub proof fn lemma_start_on_field(spawn: SpawnView)
    requires
        spawn.drawn(),
    ensures
        spawn.x.on_field_x(),
        spawn.y.on_field_y(),
        !spawn.x.is_nan(),
        !spawn.y.is_nan(),
{
    let column = choose|n: nat| MARGIN <= n < MARGIN + START_COLUMNS && #[trigger] encodes_whole(spawn.x.bits, n);
    let row = choose|n: nat| MARGIN <= n < MARGIN + START_ROWS && #[trigger] encodes_whole(spawn.y.bits, n);
    lemma_field_edges();
    lemma_whole_order(spawn.x.bits, column, WIDTH_BITS, 800);
    lemma_whole_order(spawn.y.bits, row, HEIGHT_BITS, 400);
}

impl Spawn {
    /// Draws a spawn: a fresh id, a place of the palette picked at random,
    /// and a whole start position picked at random at least the margin away
    /// from every edge of the field.
    pub fn draw() -> (spawn: Spawn)
        ensures
            spawn@.drawn(),
    {
        let id = fresh_id();
        let place = random_below(PALETTE_SIZE);
        let column = random_below(START_COLUMNS);
        let row = random_below(START_ROWS);
        let x = Coord::from_whole(MARGIN + column);
        let y = Coord::from_whole(MARGIN + row);
        Spawn { id, place, x, y }
    }
}

impl Player {
    /// Makes a player of a spawn: with the nickname that the client
    /// brought, or one made from the id; seen at `now`.
    pub fn assemble(spawn: Spawn, nickname: Option<String>, now: u64) -> (player: Player)
        requires
            spawn@.valid(),
        ensures
            player@ == assembled(spawn@, brought(nickname), now),
    {
        let nickname = match nickname {
            Some(given) => given,
            None => nickname_from_id(spawn.id.as_str()),
        };
        Player { id: spawn.id, nickname, x: spawn.x, y: spawn.y, color: palette_color(spawn.place), last_seen: now }
    }

    /// Makes a player of a spawn drawn for it, seen at the time that the
    /// system clock shows.
    pub fn new(nickname: Option<String>) -> (player: Player)
        ensures
            player@.id.len() == ID_LENGTH,
            player@.nickname == match nickname {
                Some(given) => given@,
                None => default_nickname(player@.id),
            },
            in_palette(player@.color),
            starts_across(player.x),
            starts_down(player.y),
            player.x.on_field_x(),
            player.y.on_field_y(),
    {
        let spawn = Spawn::draw();
        let now = unix_seconds();
        proof {
            lemma_start_on_field(spawn@);
        }
        Player::assemble(spawn, nickname, now)
    }
}

/// Whether the colour is one of the palette.
pub open spec fn in_palette(color: Seq<char>) -> bool {
    exists|place: int| 0 <= place < PALETTE_SIZE && color == #[trigger] palette(place)
}

/// Whether a horizontal position is one that a new player may start from: a
/// whole number at least the margin away from both edges.
pub open spec fn starts_across(x: Coord) -> bool {
    exists|n: nat| MARGIN <= n < MARGIN + START_COLUMNS && #[trigger] encodes_whole(x.bits, n)
}

/// Whether a vertical position is one that a new player may start from.
pub open spec fn starts_down(y: Coord) -> bool {
    exists|n: nat| MARGIN <= n < MARGIN + START_ROWS && #[trigger] encodes_whole(y.bits, n)
}

} // verus!
