//! The two closed vocabularies that travel between a client and the server.

use vstd::prelude::*;
use crate::coord::Coord;
use crate::player::{views_of, Player, PlayerView};

verus! {

/// What a client may send.
#[derive(Debug)]
#[allow(inconsistent_fields)]
pub enum ClientMessage {
    Join { nickname: Option<String> },
    Move { x: Coord, y: Coord },
    Chat { message: String },
    ChangeNick { nickname: String },
}

/// What a [`ClientMessage`] holds, as mathematical values.
#[allow(inconsistent_fields)]
pub ghost enum ClientMessageView {
    Join { nickname: Option<Seq<char>> },
    Move { x: Coord, y: Coord },
    Chat { message: Seq<char> },
    ChangeNick { nickname: Seq<char> },
}

impl View for ClientMessage {
    type V = ClientMessageView;

    open spec fn view(&self) -> ClientMessageView {
        match self {
            ClientMessage::Join { nickname } => ClientMessageView::Join {
                nickname: match nickname {
                    Some(n) => Some(n@),
                    None => None,
                },
            },
            ClientMessage::Move { x, y } => ClientMessageView::Move { x: *x, y: *y },
            ClientMessage::Chat { message } => ClientMessageView::Chat { message: message@ },
            ClientMessage::ChangeNick { nickname } => ClientMessageView::ChangeNick { nickname: nickname@ },
        }
    }
}

/// What the server may send.
#[derive(Debug)]
pub enum ServerMessage {
    Welcome { your_id: String, players: Vec<Player> },
    PlayerJoined { player: Player },
    PlayerLeft { player_id: String },
    PlayerMoved { player_id: String, x: Coord, y: Coord },
    ChatMessage { player_id: String, nickname: String, message: String, timestamp: u64 },
    Error { message: String },
}

/// What a [`ServerMessage`] holds, as mathematical values.
pub ghost enum ServerMessageView {
    Welcome { your_id: Seq<char>, players: Seq<PlayerView> },
    PlayerJoined { player: PlayerView },
    PlayerLeft { player_id: Seq<char> },
    PlayerMoved { player_id: Seq<char>, x: Coord, y: Coord },
    ChatMessage { player_id: Seq<char>, nickname: Seq<char>, message: Seq<char>, timestamp: u64 },
    Error { message: Seq<char> },
}

impl View for ServerMessage {
    type V = ServerMessageView;

    open spec fn view(&self) -> ServerMessageView {
        match self {
            ServerMessage::Welcome { your_id, players } => ServerMessageView::Welcome {
                your_id: your_id@,
                players: views_of(players@),
            },
            ServerMessage::PlayerJoined { player } => ServerMessageView::PlayerJoined { player: player@ },
            ServerMessage::PlayerLeft { player_id } => ServerMessageView::PlayerLeft { player_id: player_id@ },
            ServerMessage::PlayerMoved { player_id, x, y } => ServerMessageView::PlayerMoved {
                player_id: player_id@,
                x: *x,
                y: *y,
            },
            ServerMessage::ChatMessage { player_id, nickname, message, timestamp } => ServerMessageView::ChatMessage {
                player_id: player_id@,
                nickname: nickname@,
                message: message@,
                timestamp: *timestamp,
            },
            ServerMessage::Error { message } => ServerMessageView::Error { message: message@ },
        }
    }
}

/// Copies a list of players.
pub fn copy_players(players: &Vec<Player>) -> (copy: Vec<Player>)
    ensures
        views_of(copy@) == views_of(players@),
{
    let mut copy: Vec<Player> = Vec::new();
    let mut i: usize = 0;
    while i < players.len()
        invariant
            0 <= i <= players.len(),
            copy@.len() == i,
            forall|j: int| 0 <= j < i ==> (#[trigger] copy@[j])@ == players@[j]@,
        decreases players.len() - i,
    {
        copy.push(players[i].clone());
        i += 1;
    }
    assert(views_of(copy@) =~= views_of(players@));
    copy
}

impl Clone for ServerMessage {
    fn clone(&self) -> (m: ServerMessage)
        ensures
            m@ == self@,
    {
        match self {
            ServerMessage::Welcome { your_id, players } => ServerMessage::Welcome {
                your_id: your_id.clone(),
                players: copy_players(players),
            },
            ServerMessage::PlayerJoined { player } => ServerMessage::PlayerJoined { player: player.clone() },
            ServerMessage::PlayerLeft { player_id } => ServerMessage::PlayerLeft { player_id: player_id.clone() },
            ServerMessage::PlayerMoved { player_id, x, y } => ServerMessage::PlayerMoved {
                player_id: player_id.clone(),
                x: *x,
                y: *y,
            },
            ServerMessage::ChatMessage { player_id, nickname, message, timestamp } => ServerMessage::ChatMessage {
                player_id: player_id.clone(),
                nickname: nickname.clone(),
                message: message.clone(),
                timestamp: *timestamp,
            },
            ServerMessage::Error { message } => ServerMessage::Error { message: message.clone() },
        }
    }
}

} // verus!
