//! The client's side: where to connect, what to send, and what the messages
//! of the server make of the client's picture of the field.
//!
//! The client owns no socket and draws nothing. Whoever runs it opens the
//! connection that [`GameClient::connect`] describes, tells the client with
//! [`GameClient::socket_opened`] how that went, hands every message of the
//! server to [`GameClient::receive`], and does what the returned [`Effect`]
//! asks for.

use vstd::prelude::*;
use vstd::string::*;
use crate::coord::Coord;
use crate::keyed::{
    by_key, distinct, holds, lemma_count, lemma_found, lemma_push, lemma_remove, lemma_replace, lemma_slot, slot,
};
use crate::message::{ClientMessage, ClientMessageView, ServerMessage, ServerMessageView};
use crate::player::{brought, views_of, Player, PlayerView};
use crate::server::ServerView;

verus! {

/// Where the page that runs the client was loaded from.
#[derive(Debug)]
pub struct Location {
    pub hostname: String,
    /// The scheme with its colon, as in `https:`.
    pub protocol: String,
    /// The port, where the page names one.
    pub port: Option<String>,
}

/// What the client asks of whoever runs it, after a message of the server.
#[derive(Debug)]
pub enum Effect {
    /// Draw the players anew.
    Redraw,
    /// Show what a player said.
    Chat { nickname: String, message: String, timestamp: u64 },
    /// Report an error that the server sent.
    Fault { message: String },
}

/// What an [`Effect`] holds, as mathematical values.
pub ghost enum EffectView {
    Redraw,
    Chat { nickname: Seq<char>, message: Seq<char>, timestamp: u64 },
    Fault { message: Seq<char> },
}

impl View for Effect {
    type V = EffectView;

    open spec fn view(&self) -> EffectView {
        match self {
            Effect::Redraw => EffectView::Redraw,
            Effect::Chat { nickname, message, timestamp } => EffectView::Chat {
                nickname: nickname@,
                message: message@,
                timestamp: *timestamp,
            },
            Effect::Fault { message } => EffectView::Fault { message: message@ },
        }
    }
}

/// What a connection starts with: the address to open, and the message to
/// send as soon as it is open.
#[derive(Debug)]
pub struct Connection {
    pub url: String,
    pub join: ClientMessage,
}

/// The client.
pub struct GameClient {
    connected: bool,
    my_player_id: Option<String>,
    players: Vec<Player>,
}

/// What a [`GameClient`] holds, as mathematical values.
pub ghost struct ClientView {
    /// Whether a socket was opened for the client.
    pub connected: bool,
    /// The id that the server gave this client, once it has welcomed it.
    pub my_player_id: Option<Seq<char>>,
    /// The players that the client knows of, by id.
    pub players: Map<Seq<char>, PlayerView>,
}

/// The address of a server on this machine.
pub open spec fn local_url() -> Seq<char> {
    "ws://127.0.0.1:8080/ws"@
}

/// Whether the host is this machine.
pub open spec fn is_local(hostname: Seq<char>) -> bool {
    hostname == "localhost"@ || hostname == "127.0.0.1"@
}

/// The scheme of the channel that goes with the scheme of the page.
pub open spec fn channel_scheme(protocol: Seq<char>) -> Seq<char> {
    if protocol == "https:"@ {
        "wss"@
    } else {
        "ws"@
    }
}

/// The port as it stands in the address: a colon and the port, or nothing
/// where the page names none.
pub open spec fn port_suffix(port: Option<String>) -> Seq<char> {
    match port {
        Some(text) => if text@.len() == 0 {
            Seq::empty()
        } else {
            ":"@ + text@
        },
        None => Seq::empty(),
    }
}

/// The address of the message channel for a page: the server on this
/// machine where the page's location is unknown or local, and else the
/// page's own host and port, by the scheme that goes with the page's.
pub open spec fn url_for(location: Option<Location>) -> Seq<char> {
    match location {
        None => local_url(),
        Some(at) => if is_local(at.hostname@) {
            local_url()
        } else {
            channel_scheme(at.protocol@) + "://"@ + at.hostname@ + port_suffix(at.port) + "/ws"@
        },
    }
}

/// The address of the message channel for a page.
pub fn websocket_url(location: Option<&Location>) -> (url: String)
    ensures
        url@ == url_for(
            match location {
                Some(at) => Some(*at),
                None => None,
            },
        ),
{
    match location {
        None => String::from_str("ws://127.0.0.1:8080/ws"),
        Some(at) => {
            if at.hostname == String::from_str("localhost") || at.hostname == String::from_str("127.0.0.1") {
                String::from_str("ws://127.0.0.1:8080/ws")
            } else {
                let scheme = if at.protocol == String::from_str("https:") {
                    "wss"
                } else {
                    "ws"
                };
                let mut url = String::from_str(scheme);
                url.append("://");
                url.append(at.hostname.as_str());
                match &at.port {
                    Some(text) => {
                        if text.as_str().unicode_len() != 0 {
                            url.append(":");
                            url.append(text.as_str());
                        }
                    },
                    None => {},
                }
                url.append("/ws");
                assert(url@ =~= channel_scheme(at.protocol@) + "://"@ + at.hostname@ + port_suffix(at.port)
                    + "/ws"@);
                url
            }
        },
    }
}

/// The players of a list by id; of two that share an id the later one
/// stays.
pub open spec fn roster_of(list: Seq<PlayerView>) -> Map<Seq<char>, PlayerView>
    decreases list.len(),
{
    if list.len() == 0 {
        Map::empty()
    } else {
        roster_of(list.drop_last()).insert(list.last().id, list.last())
    }
}

impl ClientView {
    /// The client after a message of the server.
    ///
    /// A welcome gives the client its id and the players there are, in
    /// place of those it knew. A player that joined is added, or takes the
    /// place of the one with its id. A player that left is removed. A player
    /// that moved stands where the message says, if the client knows it.
    /// What was said and what went wrong change nothing.
    pub open spec fn received(self, message: ServerMessageView) -> ClientView {
        match message {
            ServerMessageView::Welcome { your_id, players } => ClientView {
                my_player_id: Some(your_id),
                players: roster_of(players),
                ..self
            },
            ServerMessageView::PlayerJoined { player } => ClientView {
                players: self.players.insert(player.id, player),
                ..self
            },
            ServerMessageView::PlayerLeft { player_id } => ClientView {
                players: self.players.remove(player_id),
                ..self
            },
            ServerMessageView::PlayerMoved { player_id, x, y } => if self.players.contains_key(player_id) {
                ClientView {
                    players: self.players.insert(player_id, PlayerView { x, y, ..self.players[player_id] }),
                    ..self
                }
            } else {
                self
            },
            ServerMessageView::ChatMessage { .. } => self,
            ServerMessageView::Error { .. } => self,
        }
    }
}

/// What a message of the server asks of whoever runs the client: to show
/// what was said, to report what went wrong, and else to draw anew.
pub open spec fn effect_of(message: ServerMessageView) -> EffectView {
    match message {
        ServerMessageView::ChatMessage { nickname, message, timestamp, .. } => EffectView::Chat {
            nickname,
            message,
            timestamp,
        },
        ServerMessageView::Error { message } => EffectView::Fault { message },
        _ => EffectView::Redraw,
    }
}

impl ClientView {
    /// The client after the messages of `stream`, first to last.
    pub open spec fn received_all(self, stream: Seq<ServerMessageView>) -> ClientView
        decreases stream.len(),
    {
        if stream.len() == 0 {
            self
        } else {
            self.received_all(stream.drop_last()).received(stream.last())
        }
    }
}

/// Whether the client's picture shows the players of the server: the same
/// ids, and each player where it stands and in its colour.
pub open spec fn shows(picture: Map<Seq<char>, PlayerView>, players: Map<Seq<char>, PlayerView>) -> bool {
    &&& picture.dom() == players.dom()
    &&& forall|id: Seq<char>| #[trigger]
        players.contains_key(id) ==> {
            &&& picture[id].id == id
            &&& picture[id].x == players[id].x
            &&& picture[id].y == players[id].y
            &&& picture[id].color == players[id].color
        }
}

/// What the server published on the way from `before` to `after`.
pub open spec fn news(before: ServerView, after: ServerView) -> Seq<ServerMessageView> {
    after.bus.published.skip(before.bus.published.len() as int)
}

/// A client that takes every message in the order of publication keeps up
/// with the server: where its picture shows the players of the server, it
/// still does after a player with a free id was registered and announced,
/// after the server removed or moved a player, heard one speak or renamed
/// one, and the client took what was published on that occasion.
pub proof fn law_client_keeps_up(
    client: ClientView,
    server: ServerView,
    player: PlayerView,
    player_id: Seq<char>,
    x: Coord,
    y: Coord,
    text: Seq<char>,
    now: u64,
)
    requires
        server.keyed(),
        shows(client.players, server.players),
    ensures
        !server.players.contains_key(player.id) ==> shows(
            client.received_all(
                news(server, server.add(player).broadcast(ServerMessageView::PlayerJoined { player })),
            ).players,
            server.add(player).broadcast(ServerMessageView::PlayerJoined { player }).players,
        ),
        shows(client.received_all(news(server, server.remove(player_id))).players, server.remove(player_id).players),
        shows(
            client.received_all(news(server, server.move_to(player_id, x, y, now))).players,
            server.move_to(player_id, x, y, now).players,
        ),
        shows(
            client.received_all(news(server, server.chat(player_id, text, now))).players,
            server.chat(player_id, text, now).players,
        ),
        shows(
            client.received_all(news(server, server.rename(player_id, text))).players,
            server.rename(player_id, text).players,
        ),
{
    lemma_one_step(client, server, server.add(player).broadcast(ServerMessageView::PlayerJoined { player }));
    lemma_one_step(client, server, server.remove(player_id));
    lemma_one_step(client, server, server.move_to(player_id, x, y, now));
    lemma_one_step(client, server, server.chat(player_id, text, now));
    lemma_one_step(client, server, server.rename(player_id, text));
    assert(client.players.insert(player.id, player).dom() =~= server.players.insert(player.id, player).dom());
    assert(client.players.remove(player_id).dom() =~= server.players.remove(player_id).dom());
    if server.players.contains_key(player_id) {
        let moved = PlayerView { x: x.field_x(), y: y.field_y(), ..client.players[player_id] };
        let stored = PlayerView { x: x.field_x(), y: y.field_y(), last_seen: now, ..server.players[player_id] };
        assert(client.players.contains_key(player_id));
        assert(client.players.insert(player_id, moved).dom() =~= server.players.insert(player_id, stored).dom());
        let renamed = PlayerView { nickname: text, ..server.players[player_id] };
        assert(client.players.dom() =~= server.players.insert(player_id, renamed).dom());
    }
}

/// What the client holds after the news of a step that published at most
/// one message.
proof fn lemma_one_step(client: ClientView, before: ServerView, after: ServerView)
    requires
        after.bus.published == before.bus.published || exists|message: ServerMessageView|
            after.bus.published == #[trigger] before.bus.published.push(message),
    ensures
        after.bus.published == before.bus.published ==> client.received_all(news(before, after)) == client,
        after.bus.published != before.bus.published ==> client.received_all(news(before, after))
            == client.received(after.bus.published.last()),
{
    let stream = news(before, after);
    if after.bus.published == before.bus.published {
        assert(stream.len() == 0);
    } else {
        assert(stream.len() == 1);
        assert(stream.drop_last().len() == 0);
        assert(stream.last() == after.bus.published.last());
        reveal_with_fuel(ClientView::received_all, 2);
    }
}

/// What tells the players apart: their ids.
spec fn id_of() -> spec_fn(Player) -> Seq<char> {
    |player: Player| player.id@
}

/// What a player stands for: what it holds.
spec fn shown() -> spec_fn(Player) -> PlayerView {
    |player: Player| player@
}

spec fn unique(players: Seq<Player>) -> bool {
    distinct(players, id_of())
}

spec fn by_id(players: Seq<Player>) -> Map<Seq<char>, PlayerView> {
    by_key(players, id_of(), shown())
}

fn locate(players: &Vec<Player>, id: &String) -> (found: Option<usize>)
    requires
        unique(players@),
    ensures
        found is Some <==> holds(players@, id_of(), id@),
        found matches Some(i) ==> i < players@.len() && players@[i as int].id@ == id@ && slot(
            players@,
            id_of(),
            id@,
        ) == i,
{
    let mut i: usize = 0;
    while i < players.len()
        invariant
            0 <= i <= players@.len(),
            unique(players@),
            forall|j: int| 0 <= j < i ==> (#[trigger] players@[j]).id@ != id@,
        decreases players.len() - i,
    {
        if players[i].id == *id {
            proof {
                lemma_slot(players@, id_of(), i as int);
            }
            return Some(i);
        }
        i += 1;
    }
    proof {
        if holds(players@, id_of(), id@) {
            lemma_found(players@, id_of(), id@);
            assert(players@[slot(players@, id_of(), id@)].id@ != id@);
        }
    }
    None
}

fn put(players: &mut Vec<Player>, player: Player)
    requires
        unique(old(players)@),
    ensures
        unique(final(players)@),
        by_id(final(players)@) == by_id(old(players)@).insert(player@.id, player@),
{
    let ghost before = players@;
    match locate(players, &player.id) {
        Some(i) => {
            players[i] = player;
            proof {
                lemma_replace(before, players@, id_of(), shown(), i as int);
            }
        },
        None => {
            proof {
                lemma_push(before, id_of(), shown(), player);
            }
            players.push(player);
        },
    }
}

fn drop_player(players: &mut Vec<Player>, id: &String)
    requires
        unique(old(players)@),
    ensures
        unique(final(players)@),
        by_id(final(players)@) == by_id(old(players)@).remove(id@),
{
    let ghost before = players@;
    match locate(players, id) {
        None => {
            assert(by_id(before).remove(id@) =~= by_id(before));
        },
        Some(i) => {
            let _ = players.remove(i);
            proof {
                lemma_remove(before, id_of(), shown(), i as int);
            }
        },
    }
}

fn roster_from(list: Vec<Player>) -> (players: Vec<Player>)
    ensures
        unique(players@),
        by_id(players@) == roster_of(views_of(list@)),
{
    let mut players: Vec<Player> = Vec::new();
    let mut i: usize = 0;
    assert(by_id(players@) =~= Map::empty());
    assert(views_of(list@).subrange(0, 0) =~= Seq::empty());
    while i < list.len()
        invariant
            0 <= i <= list@.len(),
            unique(players@),
            by_id(players@) == roster_of(views_of(list@).subrange(0, i as int)),
        decreases list.len() - i,
    {
        let ghost done = views_of(list@).subrange(0, i as int);
        let ghost next = views_of(list@).subrange(0, i + 1);
        assert(next.drop_last() =~= done);
        assert(next.last() == list@[i as int]@);
        put(&mut players, list[i].clone());
        i += 1;
    }
    assert(views_of(list@).subrange(0, list@.len() as int) =~= views_of(list@));
    players
}

impl GameClient {
    /// No two of the players that the client knows of share an id.
    pub closed spec fn wf(&self) -> bool {
        unique(self.players@)
    }

    /// What the client holds.
    pub closed spec fn view(&self) -> ClientView {
        ClientView {
            connected: self.connected,
            my_player_id: match self.my_player_id {
                Some(id) => Some(id@),
                None => None,
            },
            players: by_id(self.players@),
        }
    }

    /// A client that has not connected and knows of nobody.
    pub fn new() -> (client: GameClient)
        ensures
            client.wf(),
            client@.connected == false,
            client@.my_player_id is None,
            client@.players =~= Map::empty(),
    {
        let client = GameClient { connected: false, my_player_id: None, players: Vec::new() };
        assert(client@.players =~= Map::empty());
        client
    }

    /// Plans a connection: the address of the message channel for the page,
    /// and the join to send on it, with the nickname that the user chose, if
    /// any. The client stays as it is: whether it has a socket is settled
    /// when the socket was opened, or was not.
    pub fn connect(&self, location: Option<&Location>, nickname: Option<String>) -> (connection: Connection)
        ensures
            connection.url@ == url_for(
                match location {
                    Some(at) => Some(*at),
                    None => None,
                },
            ),
            connection.join@ == (ClientMessageView::Join { nickname: brought(nickname) }),
    {
        Connection { url: websocket_url(location), join: ClientMessage::Join { nickname } }
    }

    /// Takes the outcome of opening the socket of a planned connection. A
    /// socket that was opened is the client's from now on, and the client has
    /// messages to send. A failed opening leaves the client as it was: with
    /// the socket that it had, or with none.
    pub fn socket_opened(&mut self, opened: bool)
        requires
            old(self).wf(),
        ensures
            final(self).wf(),
            final(self)@ == (ClientView { connected: old(self)@.connected || opened, ..old(self)@ }),
    {
        if opened {
            self.connected = true;
        }
    }

    /// What goes out for a message that the user wants to send: the message,
    /// once the client has a socket, and nothing before.
    pub fn send_message(&self, message: ClientMessage) -> (outgoing: Option<ClientMessage>)
        ensures
            self@.connected ==> outgoing is Some && outgoing->Some_0@ == message@,
            !self@.connected ==> outgoing is None,
    {
        if self.connected {
            Some(message)
        } else {
            None
        }
    }

    /// Takes a message of the server, and says what to do about it.
    pub fn receive(&mut self, message: ServerMessage) -> (effect: Effect)
        requires
            old(self).wf(),
        ensures
            final(self).wf(),
            final(self)@ == old(self)@.received(message@),
            effect@ == effect_of(message@),
    {
        match message {
            ServerMessage::Welcome { your_id, players } => {
                self.my_player_id = Some(your_id);
                self.players = roster_from(players);
                Effect::Redraw
            },
            ServerMessage::PlayerJoined { player } => {
                put(&mut self.players, player);
                Effect::Redraw
            },
            ServerMessage::PlayerLeft { player_id } => {
                drop_player(&mut self.players, &player_id);
                Effect::Redraw
            },
            ServerMessage::PlayerMoved { player_id, x, y } => {
                match locate(&self.players, &player_id) {
                    Some(i) => {
                        let known = self.players[i].clone();
                        proof {
                            lemma_slot(self.players@, id_of(), i as int);
                        }
                        put(
                            &mut self.players,
                            Player {
                                id: known.id,
                                nickname: known.nickname,
                                x,
                                y,
                                color: known.color,
                                last_seen: known.last_seen,
                            },
                        );
                    },
                    None => {},
                }
                Effect::Redraw
            },
            ServerMessage::ChatMessage { player_id: _, nickname, message, timestamp } => Effect::Chat {
                nickname,
                message,
                timestamp,
            },
            ServerMessage::Error { message } => Effect::Fault { message },
        }
    }

    /// Whether a socket was opened for the client.
    pub fn is_connected(&self) -> (connected: bool)
        ensures
            connected == self@.connected,
    {
        self.connected
    }

    /// The id that the server gave this client, once it has welcomed it.
    pub fn my_player_id(&self) -> (id: Option<String>)
        ensures
            id is Some <==> self@.my_player_id is Some,
            id matches Some(text) ==> self@.my_player_id == Some(text@),
    {
        match &self.my_player_id {
            Some(id) => Some(id.clone()),
            None => None,
        }
    }

    /// The players that the client knows of, each once.
    pub fn players(&self) -> (list: &Vec<Player>)
        requires
            self.wf(),
        ensures
            list@.len() == self@.players.dom().len(),
            forall|i: int| 0 <= i < list@.len() ==> self@.players.contains_key(#[trigger] list@[i]@.id)
                && self@.players[list@[i]@.id] == list@[i]@,
            forall|i: int, j: int| 0 <= i < j < list@.len() ==> #[trigger] list@[i]@.id != #[trigger] list@[j]@.id,
            forall|id: Seq<char>| #[trigger]
                self@.players.contains_key(id) ==> exists|i: int| 0 <= i < list@.len() && #[trigger] list@[i]@.id
                    == id,
    {
        proof {
            lemma_count(self.players@, id_of(), shown());
            assert forall|i: int| 0 <= i < self.players@.len() implies self@.players.contains_key(
                #[trigger] self.players@[i]@.id,
            ) && self@.players[self.players@[i]@.id] == self.players@[i]@ by {
                lemma_slot(self.players@, id_of(), i);
            }
            assert forall|i: int, j: int| 0 <= i < j < self.players@.len() implies #[trigger] self.players@[i]@.id
                != #[trigger] self.players@[j]@.id by {
                assert(id_of()(self.players@[i]) != id_of()(self.players@[j]));
            }
            assert forall|id: Seq<char>| #[trigger] self@.players.contains_key(id) implies exists|i: int|
                0 <= i < self.players@.len() && #[trigger] self.players@[i]@.id == id by {
                lemma_found(self.players@, id_of(), id);
                let at = slot(self.players@, id_of(), id);
                assert(self.players@[at]@.id == id);
            }
        }
        &self.players
    }
}

/// Starts the game: makes the client where there is none yet, and plans a
/// connection for it. A client that was there stays as it is.
pub fn connect_to_game(
    client: &mut Option<GameClient>,
    location: Option<&Location>,
    nickname: Option<String>,
) -> (connection: Connection)
    requires
        (*old(client)) matches Some(c) ==> c.wf(),
    ensures
        (*final(client)) is Some,
        (*final(client))->Some_0.wf(),
        (*old(client)) is Some ==> (*final(client))->Some_0@ == (*old(client))->Some_0@,
        (*old(client)) is None ==> (*final(client))->Some_0@ == (ClientView {
            connected: false,
            my_player_id: None,
            players: Map::empty(),
        }),
        connection.url@ == url_for(
            match location {
                Some(at) => Some(*at),
                None => None,
            },
        ),
        connection.join@ == (ClientMessageView::Join { nickname: brought(nickname) }),
{
    let game = match client.take() {
        Some(game) => game,
        None => GameClient::new(),
    };
    let connection = game.connect(location, nickname);
    *client = Some(game);
    connection
}

/// What goes out for a message where there may be no client yet: nothing
/// without a client, and else what the client lets out.
pub open spec fn lets_out(
    client: Option<GameClient>,
    message: ClientMessageView,
    outgoing: Option<ClientMessage>,
) -> bool {
    if client is Some && client->Some_0@.connected {
        outgoing is Some && outgoing->Some_0@ == message
    } else {
        outgoing is None
    }
}

/// What goes out when the user moves: a move to that position, once the
/// client has a socket.
pub fn move_player(client: &Option<GameClient>, x: Coord, y: Coord) -> (outgoing: Option<ClientMessage>)
    ensures
        lets_out(*client, ClientMessageView::Move { x, y }, outgoing),
{
    match client {
        Some(game) => game.send_message(ClientMessage::Move { x, y }),
        None => None,
    }
}

/// What goes out when the user says something: the words, once the
/// client has a socket.
pub fn send_chat_message(client: &Option<GameClient>, message: String) -> (outgoing: Option<ClientMessage>)
    ensures
        lets_out(*client, ClientMessageView::Chat { message: message@ }, outgoing),
{
    match client {
        Some(game) => game.send_message(ClientMessage::Chat { message }),
        None => None,
    }
}

/// What goes out when the user takes another nickname: the nickname, once
/// the client has a socket.
pub fn change_nickname(client: &Option<GameClient>, nickname: String) -> (outgoing: Option<ClientMessage>)
    ensures
        lets_out(*client, ClientMessageView::ChangeNick { nickname: nickname@ }, outgoing),
{
    match client {
        Some(game) => game.send_message(ClientMessage::ChangeNick { nickname }),
        None => None,
    }
}

} // verus!
