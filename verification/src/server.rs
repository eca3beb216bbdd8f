//! The server's state: the registry of players and the bus that tells every
//! session what changed in it.
//!
//! A player that leaves, moves or speaks is published exactly once, in the
//! same call that makes the change; a call that changes nothing publishes
//! nothing. Registering a player publishes nothing: the session that joins
//! announces its player itself.

use vstd::prelude::*;
use crate::ambient::unix_seconds;
use crate::bus::{Bus, BusView, SubscriberId};
use vstd::arithmetic::power2::pow2;
use crate::coord::{law_stored_positions_are_on_the_field, Coord};
use crate::message::{ServerMessage, ServerMessageView};
use crate::player::{Player, PlayerView};
use crate::registry::{lists_exactly, Registry, RegistryError};

verus! {

/// How many messages may wait for one session.
pub const BUS_CAPACITY: usize = 1000;

/// The registry and the bus of one server.
pub struct GameServer {
    players: Registry,
    bus: Bus,
}

/// What a [`GameServer`] holds, as mathematical values.
pub ghost struct ServerView {
    /// The registered players by id.
    pub players: Map<Seq<char>, PlayerView>,
    /// The bus.
    pub bus: BusView,
}

impl ServerView {
    /// The server after `message` was published.
    pub open spec fn broadcast(self, message: ServerMessageView) -> ServerView {
        ServerView { bus: self.bus.publish(message), ..self }
    }

    /// The server after the messages of `stream` were published, first to
    /// last.
    pub open spec fn broadcast_all(self, stream: Seq<ServerMessageView>) -> ServerView {
        ServerView { bus: self.bus.publish_all(stream), ..self }
    }

    /// The server after a player asked to be registered: where its id is
    /// free it is registered, else nothing happens. Nothing is published
    /// either way.
    pub open spec fn add(self, player: PlayerView) -> ServerView {
        if self.players.contains_key(player.id) {
            self
        } else {
            ServerView { players: self.players.insert(player.id, player), ..self }
        }
    }

    /// The server after the player with the given id was asked to leave:
    /// where there is one it is removed and its leaving announced, else
    /// nothing happens.
    pub open spec fn remove(self, player_id: Seq<char>) -> ServerView {
        if self.players.contains_key(player_id) {
            ServerView {
                players: self.players.remove(player_id),
                bus: self.bus.publish(ServerMessageView::PlayerLeft { player_id }),
            }
        } else {
            self
        }
    }

    /// The server after a player asked to move at the time `now`: where
    /// there is such a player, it stands at the position clamped onto the
    /// field, was seen at `now`, and the move is announced with the position
    /// as stored; else nothing happens.
    pub open spec fn move_to(self, player_id: Seq<char>, x: Coord, y: Coord, now: u64) -> ServerView {
        if self.players.contains_key(player_id) {
            ServerView {
                players: self.players.insert(
                    player_id,
                    PlayerView { x: x.field_x(), y: y.field_y(), last_seen: now, ..self.players[player_id] },
                ),
                bus: self.bus.publish(
                    ServerMessageView::PlayerMoved { player_id, x: x.field_x(), y: y.field_y() },
                ),
            }
        } else {
            self
        }
    }

    /// The server after a player said something at the time `now`: where
    /// there is such a player, the words are published under its nickname;
    /// else nothing happens.
    pub open spec fn chat(self, player_id: Seq<char>, message: Seq<char>, now: u64) -> ServerView {
        if self.players.contains_key(player_id) {
            self.broadcast(
                ServerMessageView::ChatMessage {
                    player_id,
                    nickname: self.players[player_id].nickname,
                    message,
                    timestamp: now,
                },
            )
        } else {
            self
        }
    }

    /// The server after a player asked for another nickname: where there is
    /// such a player it has the nickname, and nothing is published.
    pub open spec fn rename(self, player_id: Seq<char>, nickname: Seq<char>) -> ServerView {
        if self.players.contains_key(player_id) {
            ServerView {
                players: self.players.insert(player_id, PlayerView { nickname, ..self.players[player_id] }),
                ..self
            }
        } else {
            self
        }
    }

    /// The server after one more subscription was handed out.
    pub open spec fn subscribe(self) -> ServerView {
        ServerView { bus: self.bus.subscribe(), ..self }
    }

    /// The server after a subscription ended.
    pub open spec fn unsubscribe(self, id: u64) -> ServerView {
        ServerView { bus: self.bus.unsubscribe(id), ..self }
    }

    /// The server after a subscriber took the message at the front of its
    /// queue.
    pub open spec fn take(self, id: u64) -> ServerView {
        ServerView { bus: self.bus.take(id), ..self }
    }

    /// The messages that wait for a subscriber; none where there is no such
    /// subscription.
    pub open spec fn pending(self, id: u64) -> Seq<ServerMessageView> {
        if self.bus.queues.contains_key(id) {
            self.bus.queues[id]
        } else {
            Seq::empty()
        }
    }
}

impl ServerView {
    /// Whether every player is registered under its own id.
    pub open spec fn keyed(self) -> bool {
        forall|id: Seq<char>| #[trigger] self.players.contains_key(id) ==> self.players[id].id == id
    }

    /// The server after the players of `arrivals` asked to be registered,
    /// first to last.
    pub open spec fn add_all(self, arrivals: Seq<PlayerView>) -> ServerView
        decreases arrivals.len(),
    {
        if arrivals.len() == 0 {
            self
        } else {
            self.add_all(arrivals.drop_last()).add(arrivals.last())
        }
    }
}

/// Whatever players ask to be registered, and in whatever order, no two
/// registered players come to share an id: on a server that keeps every
/// player under its own id, and a new server does, every player stays under
/// its own id, so that two players that are registered at one time differ in
/// their ids.
pub proof fn law_ids_stay_distinct(server: ServerView, arrivals: Seq<PlayerView>, one: Seq<char>, other: Seq<char>)
    requires
        server.keyed(),
        server.add_all(arrivals).players.contains_key(one),
        server.add_all(arrivals).players.contains_key(other),
        one != other,
    ensures
        server.add_all(arrivals).keyed(),
        server.add_all(arrivals).players[one].id != server.add_all(arrivals).players[other].id,
{
    lemma_add_all_keyed(server, arrivals);
}

proof fn lemma_add_all_keyed(server: ServerView, arrivals: Seq<PlayerView>)
    requires
        server.keyed(),
    ensures
        server.add_all(arrivals).keyed(),
    decreases arrivals.len(),
{
    if arrivals.len() > 0 {
        lemma_add_all_keyed(server, arrivals.drop_last());
    }
}

/// None of the other operations takes a player away from its id either.
pub proof fn law_operations_keep_ids(
    server: ServerView,
    player_id: Seq<char>,
    x: Coord,
    y: Coord,
    text: Seq<char>,
    now: u64,
)
    requires
        server.keyed(),
    ensures
        server.remove(player_id).keyed(),
        server.move_to(player_id, x, y, now).keyed(),
        server.chat(player_id, text, now).keyed(),
        server.rename(player_id, text).keyed(),
{
}

/// Wherever a player asks to move, it comes to stand on the field: unless
/// a requested coordinate is no number at all, the stored position is at
/// least 0 and at most 800 across, and at least 0 and at most 400 down. A
/// position on the field is stored as it is.
pub proof fn law_moves_stay_on_field(server: ServerView, player_id: Seq<char>, x: Coord, y: Coord, now: u64)
    requires
        server.players.contains_key(player_id),
    ensures
        !x.is_nan() ==> server.move_to(player_id, x, y, now).players[player_id].x.on_field_x(),
        !y.is_nan() ==> server.move_to(player_id, x, y, now).players[player_id].y.on_field_y(),
        !x.is_nan() ==> 0 <= server.move_to(player_id, x, y, now).players[player_id].x.scaled() <= 800 * pow2(149),
        !y.is_nan() ==> 0 <= server.move_to(player_id, x, y, now).players[player_id].y.scaled() <= 400 * pow2(149),
        x.on_field_x() ==> server.move_to(player_id, x, y, now).players[player_id].x == x,
        y.on_field_y() ==> server.move_to(player_id, x, y, now).players[player_id].y == y,
{
    law_stored_positions_are_on_the_field(x, y);
}

/// Removing a player that is not registered changes nothing and publishes
/// nothing.
pub proof fn law_removing_nobody_is_silent(server: ServerView, player_id: Seq<char>)
    requires
        !server.players.contains_key(player_id),
    ensures
        server.remove(player_id) == server,
{
}

/// Removing a registered player publishes exactly one message, which says
/// that the player with that id left; the player is then gone, so that
/// removing it once more is silent.
pub proof fn law_removing_somebody_is_announced_once(server: ServerView, player_id: Seq<char>)
    requires
        server.players.contains_key(player_id),
    ensures
        server.remove(player_id).bus.published == server.bus.published.push(
            ServerMessageView::PlayerLeft { player_id },
        ),
        !server.remove(player_id).players.contains_key(player_id),
        server.remove(player_id).remove(player_id) == server.remove(player_id),
{
}

/// The time that a chat message carries; 0 for any other message.
pub open spec fn sent_at(message: ServerMessageView) -> u64 {
    match message {
        ServerMessageView::ChatMessage { timestamp, .. } => timestamp,
        _ => 0,
    }
}

impl GameServer {
    /// Both parts are well formed.
    pub closed spec fn wf(&self) -> bool {
        self.players.wf() && self.bus.wf()
    }

    /// What the server holds.
    pub closed spec fn view(&self) -> ServerView {
        ServerView { players: self.players@, bus: self.bus@ }
    }

    /// What holds of every well-formed server: every player is registered
    /// under its own id, and the bus keeps its bounds.
    pub proof fn lemma_invariant(&self)
        requires
            self.wf(),
        ensures
            self@.players.dom().finite(),
            forall|id: Seq<char>| #[trigger] self@.players.contains_key(id) ==> self@.players[id].id == id,
            self@.bus.capacity > 0,
            self@.bus.issued <= u64::MAX,
            self@.bus.queues.dom().finite(),
            forall|id: u64| #[trigger] self@.bus.queues.contains_key(id) ==> id < self@.bus.issued,
            forall|id: u64|
                #[trigger] self@.bus.queues.contains_key(id) ==> self@.bus.queues[id].len() <= self@.bus.capacity,
    {
        self.players.lemma_invariant();
        self.bus.lemma_bounds();
    }

    /// A server without players and without subscribers.
    pub fn new() -> (server: GameServer)
        ensures
            server.wf(),
            server@.players =~= Map::empty(),
            server@.bus.capacity == BUS_CAPACITY,
            server@.bus.issued == 0,
            server@.bus.queues =~= Map::empty(),
            server@.bus.published =~= Seq::empty(),
    {
        GameServer { players: Registry::new(), bus: Bus::new(BUS_CAPACITY) }
    }

    /// Registers a player under its id, and hands back the id. Where the id
    /// is taken, the player is turned down and nothing changes. Nothing is
    /// published: to announce the player is left to the caller.
    pub fn add_player(&mut self, player: Player) -> (r: Result<String, RegistryError>)
        requires
            old(self).wf(),
        ensures
            final(self).wf(),
            final(self)@ == old(self)@.add(player@),
            final(self)@.bus == old(self)@.bus,
            old(self)@.players.contains_key(player@.id) ==> r == Err::<String, RegistryError>(
                RegistryError::DuplicateId,
            ),
            !old(self)@.players.contains_key(player@.id) ==> r is Ok && r->Ok_0@ == player@.id,
    {
        self.players.add_player(player)
    }

    /// Removes a player and publishes that it left; says whether there was
    /// one. Where there was none, nothing changes and nothing is published.
    pub fn remove_player(&mut self, player_id: &str) -> (removed: bool)
        requires
            old(self).wf(),
        ensures
            final(self).wf(),
            final(self)@ == old(self)@.remove(player_id@),
            removed == old(self)@.players.contains_key(player_id@),
    {
        if self.players.remove_player(player_id) {
            let _ = self.bus.publish(ServerMessage::PlayerLeft { player_id: String::from_str(player_id) });
            true
        } else {
            assert(old(self)@.players.remove(player_id@) =~= old(self)@.players);
            false
        }
    }

    /// Moves a player at the time `now`: the position is clamped onto the
    /// field and stored, the player counts as seen at `now`, and the move is
    /// published with the position as stored. Says whether there is such a
    /// player; where there is none, nothing changes and nothing is published.
    pub fn move_player_at(&mut self, player_id: &str, x: Coord, y: Coord, now: u64) -> (moved: bool)
        requires
            old(self).wf(),
        ensures
            final(self).wf(),
            final(self)@ == old(self)@.move_to(player_id@, x, y, now),
            moved == old(self)@.players.contains_key(player_id@),
    {
        match self.players.move_player(player_id, x, y, now) {
            None => false,
            Some((stored_x, stored_y)) => {
                let _ = self.bus.publish(
                    ServerMessage::PlayerMoved { player_id: String::from_str(player_id), x: stored_x, y: stored_y },
                );
                true
            },
        }
    }

    /// Moves a player now: [`GameServer::move_player_at`] at the time that
    /// the system clock shows, which the player then carries as the time it
    /// was last seen.
    pub fn move_player(&mut self, player_id: &str, x: Coord, y: Coord) -> (moved: bool)
        requires
            old(self).wf(),
        ensures
            final(self).wf(),
            final(self)@ == old(self)@.move_to(player_id@, x, y, final(self)@.players[player_id@].last_seen),
            moved == old(self)@.players.contains_key(player_id@),
    {
        let now = unix_seconds();
        self.move_player_at(player_id, x, y, now)
    }

    /// Publishes what a player said at the time `now`, under the nickname
    /// that it has at that moment. Says whether there is such a player; where
    /// there is none, nothing is published. The registry stays as it is.
    pub fn send_chat_at(&mut self, player_id: &str, message: String, now: u64) -> (sent: bool)
        requires
            old(self).wf(),
        ensures
            final(self).wf(),
            final(self)@ == old(self)@.chat(player_id@, message@, now),
            sent == old(self)@.players.contains_key(player_id@),
    {
        match self.players.get(player_id) {
            None => false,
            Some(player) => {
                let _ = self.bus.publish(
                    ServerMessage::ChatMessage {
                        player_id: String::from_str(player_id),
                        nickname: player.nickname,
                        message,
                        timestamp: now,
                    },
                );
                true
            },
        }
    }

    /// Publishes what a player said now: [`GameServer::send_chat_at`] at the
    /// time that the system clock shows, which the published message then
    /// carries.
    pub fn send_chat(&mut self, player_id: &str, message: String) -> (sent: bool)
        requires
            old(self).wf(),
        ensures
            final(self).wf(),
            final(self)@ == old(self)@.chat(player_id@, message@, sent_at(final(self)@.bus.published.last())),
            sent == old(self)@.players.contains_key(player_id@),
    {
        let now = unix_seconds();
        self.send_chat_at(player_id, message, now)
    }

    /// Gives a player another nickname, and says whether there is such a
    /// player. Nothing is published: the others learn of the new nickname
    /// from the next message that carries it.
    pub fn rename_player(&mut self, player_id: &str, nickname: String) -> (renamed: bool)
        requires
            old(self).wf(),
        ensures
            final(self).wf(),
            final(self)@ == old(self)@.rename(player_id@, nickname@),
            renamed == old(self)@.players.contains_key(player_id@),
    {
        self.players.rename_player(player_id, nickname)
    }

    /// The message that greets a session that joined: its id, and every
    /// registered player exactly once.
    pub fn get_welcome_message(&self, player_id: &str) -> (welcome: ServerMessage)
        requires
            self.wf(),
        ensures
            welcome@ is Welcome,
            welcome@->your_id == player_id@,
            lists_exactly(welcome@->players, self@.players),
    {
        ServerMessage::Welcome { your_id: String::from_str(player_id), players: self.players.snapshot() }
    }

    /// Publishes a message to every subscriber there is, and returns how
    /// many there are. With no subscriber the message reaches nobody, now
    /// or later.
    pub fn broadcast_message(&mut self, message: ServerMessage) -> (reached: usize)
        requires
            old(self).wf(),
        ensures
            final(self).wf(),
            final(self)@ == old(self)@.broadcast(message@),
            reached == old(self)@.bus.queues.dom().len(),
    {
        self.bus.publish(message)
    }

    /// Hands out a subscription to what is published from now on; `None`
    /// where the bus has handed out all the ids there are.
    pub fn subscribe(&mut self) -> (id: Option<SubscriberId>)
        requires
            old(self).wf(),
        ensures
            final(self).wf(),
            old(self)@.bus.issued == u64::MAX ==> id is None && final(self)@ == old(self)@,
            old(self)@.bus.issued < u64::MAX ==> id == Some(SubscriberId { raw: old(self)@.bus.issued as u64 })
                && !old(self)@.bus.queues.contains_key(old(self)@.bus.issued as u64) && final(self)@ == old(
                self)@.subscribe(),
    {
        self.bus.subscribe()
    }

    /// Ends a subscription, and says whether there was one.
    pub fn unsubscribe(&mut self, id: SubscriberId) -> (ended: bool)
        requires
            old(self).wf(),
        ensures
            final(self).wf(),
            final(self)@ == old(self)@.unsubscribe(id.raw),
            ended == old(self)@.bus.queues.contains_key(id.raw),
    {
        self.bus.unsubscribe(id)
    }

    /// Takes the oldest message that waits for a subscriber; `None` where
    /// nothing waits for it, or where there is no such subscription.
    pub fn next_message(&mut self, id: SubscriberId) -> (message: Option<ServerMessage>)
        requires
            old(self).wf(),
        ensures
            final(self).wf(),
            old(self)@.pending(id.raw).len() > 0 ==> message is Some && message->Some_0@ == old(self)@.pending(
                id.raw,
            )[0] && final(self)@ == old(self)@.take(id.raw),
            old(self)@.pending(id.raw).len() == 0 ==> message is None && final(self)@ == old(self)@,
    {
        self.bus.next_message(id)
    }

    /// A copy of the player with the given id, if there is one.
    pub fn player(&self, player_id: &str) -> (found: Option<Player>)
        requires
            self.wf(),
        ensures
            found is Some <==> self@.players.contains_key(player_id@),
            found matches Some(p) ==> p@ == self@.players[player_id@] && p@.id == player_id@,
    {
        self.players.get(player_id)
    }
}

} // verus!
