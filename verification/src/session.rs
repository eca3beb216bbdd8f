//! One connection's session, from the moment the transport is accepted to
//! the moment the player is deregistered and the subscription released.
//!
//! The session owns no socket. Whoever runs the connection reads frames and
//! hands them to [`Session::handle`], takes what the bus holds for the
//! session with [`Session::next_outbound`] and writes it out, and calls
//! [`Session::close`] as soon as either direction ends.
//!
//! A session subscribes to the bus at its join. Before that nothing is
//! relayed to it, and nothing queues up for it: what it has missed, the
//! welcome tells it.

use vstd::prelude::*;
use crate::ambient::unix_seconds;
use crate::bus::SubscriberId;
use crate::coord::Coord;
use crate::message::{ClientMessage, ClientMessageView, ServerMessage, ServerMessageView};
use crate::player::{assembled, brought, lemma_some_spawn, some_spawn, Player, PlayerView, Spawn, SpawnView};
use crate::registry::{lists_exactly, RegistryError};
use crate::server::{GameServer, ServerView};

verus! {

/// Where a session stands.
#[derive(Debug)]
pub enum Phase {
    /// The transport is not accepted yet.
    Connecting,
    /// The transport is accepted; the client has not joined.
    AwaitingJoin,
    /// The client joined, as the player with this id.
    Active { player_id: String },
    /// The session ended and its player is deregistered; the subscription
    /// is not released yet.
    Closing,
    /// Nothing is left of the session.
    Closed,
}

/// What a [`Phase`] holds, as mathematical values.
pub ghost enum PhaseView {
    Connecting,
    AwaitingJoin,
    Active { player_id: Seq<char> },
    Closing,
    Closed,
}

impl View for Phase {
    type V = PhaseView;

    open spec fn view(&self) -> PhaseView {
        match self {
            Phase::Connecting => PhaseView::Connecting,
            Phase::AwaitingJoin => PhaseView::AwaitingJoin,
            Phase::Active { player_id } => PhaseView::Active { player_id: player_id@ },
            Phase::Closing => PhaseView::Closing,
            Phase::Closed => PhaseView::Closed,
        }
    }
}

/// What came in from the client.
#[derive(Debug)]
pub enum Frame {
    /// A text frame that decoded to a message.
    Message(ClientMessage),
    /// A text frame that did not decode.
    Undecodable,
    /// A frame that carries no message: binary data, a ping, a pong.
    Other,
    /// The client closed the connection.
    Close,
    /// Reading failed.
    Broken,
    /// The stream ended.
    End,
}

/// What a [`Frame`] holds, as mathematical values.
pub ghost enum FrameView {
    Message(ClientMessageView),
    Undecodable,
    Other,
    Close,
    Broken,
    End,
}

impl View for Frame {
    type V = FrameView;

    open spec fn view(&self) -> FrameView {
        match self {
            Frame::Message(message) => FrameView::Message(message@),
            Frame::Undecodable => FrameView::Undecodable,
            Frame::Other => FrameView::Other,
            Frame::Close => FrameView::Close,
            Frame::Broken => FrameView::Broken,
            Frame::End => FrameView::End,
        }
    }
}

/// What the session asks of whoever runs the connection, after a frame.
#[derive(Debug)]
pub struct Reaction {
    /// A message to send to this connection alone.
    pub reply: Option<ServerMessage>,
    /// Whether the session goes on. Where it does not, it is closed.
    pub open: bool,
    /// Why the registry turned the join down, where it did: a fault of the
    /// server, to be logged, of which the client is told nothing.
    pub refused: Option<RegistryError>,
}

/// One connection's session.
pub struct Session {
    phase: Phase,
    subscription: Option<SubscriberId>,
}

/// What a [`Session`] holds, as mathematical values.
pub ghost struct SessionView {
    pub phase: PhaseView,
    pub subscription: Option<u64>,
}

/// A session together with the server that it lives on.
pub ghost struct Scene {
    pub session: SessionView,
    pub server: ServerView,
}

impl SessionView {
    /// Whether the session takes frames and messages.
    pub open spec fn is_open(self) -> bool {
        self.phase is AwaitingJoin || self.phase is Active
    }

    /// The messages that wait to be relayed to the session: what the bus
    /// holds for it while it is active, and nothing before it has joined or
    /// after it has ended.
    pub open spec fn pending(self, server: ServerView) -> Seq<ServerMessageView> {
        match self.subscription {
            Some(id) => if self.phase is Active {
                server.pending(id)
            } else {
                Seq::empty()
            },
            None => Seq::empty(),
        }
    }

    /// After the transport was accepted: a session that was connecting
    /// awaits the join. Any other session stays as it is.
    pub open spec fn accepted(self) -> SessionView {
        if self.phase is Connecting {
            SessionView { phase: PhaseView::AwaitingJoin, ..self }
        } else {
            self
        }
    }
}

impl Scene {
    /// After the join of a session that awaits it, with the spawn and the
    /// time at hand.
    ///
    /// Where the id of the spawn is taken, nothing happens. Where the bus
    /// has no subscription left to give, the session is closed. Else the
    /// session subscribes, the player made of the spawn is registered, and
    /// the session publishes that it joined: to everybody who subscribed
    /// before, and to itself. The session is then active as that player.
    pub open spec fn joined_as(self, nickname: Option<Seq<char>>, spawn: SpawnView, now: u64) -> Scene {
        let player = assembled(spawn, nickname, now);
        if self.server.players.contains_key(player.id) {
            self
        } else if self.server.bus.issued >= u64::MAX {
            self.closed()
        } else {
            Scene {
                session: SessionView {
                    phase: PhaseView::Active { player_id: player.id },
                    subscription: Some(self.server.bus.issued as u64),
                },
                server: self.server.subscribe().add(player).broadcast(ServerMessageView::PlayerJoined { player }),
            }
        }
    }

    /// After a message of the client, with the spawn and the time at hand.
    ///
    /// The first join of a session that awaits it makes the session join.
    /// An active session moves, speaks and renames as its own player.
    /// Everything else is ignored: a join of a session that has joined, and
    /// any other message of one that has not.
    pub open spec fn dispatched(self, message: ClientMessageView, spawn: SpawnView, now: u64) -> Scene {
        match self.session.phase {
            PhaseView::AwaitingJoin => match message {
                ClientMessageView::Join { nickname } => self.joined_as(nickname, spawn, now),
                _ => self,
            },
            PhaseView::Active { player_id } => match message {
                ClientMessageView::Join { .. } => self,
                ClientMessageView::Move { x, y } => Scene {
                    server: self.server.move_to(player_id, x, y, now),
                    ..self
                },
                ClientMessageView::Chat { message } => Scene {
                    server: self.server.chat(player_id, message, now),
                    ..self
                },
                ClientMessageView::ChangeNick { nickname } => Scene {
                    server: self.server.rename(player_id, nickname),
                    ..self
                },
            },
            _ => self,
        }
    }

    /// After the session's player was deregistered: an active session's
    /// player is removed and its leaving announced, if it was still
    /// registered. A session that is closed stays closed.
    pub open spec fn deregistered(self) -> Scene {
        match self.session.phase {
            PhaseView::Active { player_id } => Scene {
                session: SessionView { phase: PhaseView::Closing, ..self.session },
                server: self.server.remove(player_id),
            },
            PhaseView::Closed => self,
            _ => Scene { session: SessionView { phase: PhaseView::Closing, ..self.session }, ..self },
        }
    }

    /// After the subscription of a closing session was released.
    pub open spec fn released(self) -> Scene {
        if self.session.phase is Closing {
            Scene {
                session: SessionView { phase: PhaseView::Closed, subscription: None },
                server: match self.session.subscription {
                    Some(id) => self.server.unsubscribe(id),
                    None => self.server,
                },
            }
        } else {
            self
        }
    }

    /// After the session was closed: deregistered, then released.
    pub open spec fn closed(self) -> Scene {
        self.deregistered().released()
    }

    /// After a frame of the client, with the spawn and the time at hand.
    ///
    /// Only an open session takes frames. A message is dispatched; a frame
    /// that did not decode or carries no message is passed over; a close, a
    /// failed read and the end of the stream close the session.
    pub open spec fn handled(self, frame: FrameView, spawn: SpawnView, now: u64) -> Scene {
        if self.session.is_open() {
            match frame {
                FrameView::Message(message) => self.dispatched(message, spawn, now),
                FrameView::Undecodable => self,
                FrameView::Other => self,
                FrameView::Close => self.closed(),
                FrameView::Broken => self.closed(),
                FrameView::End => self.closed(),
            }
        } else {
            self
        }
    }

    /// Whether the frame is the join that the session awaits.
    pub open spec fn joins(self, frame: FrameView) -> bool {
        &&& self.session.phase is AwaitingJoin
        &&& frame matches FrameView::Message(message)
        &&& message is Join
    }

    /// Why the registry turns the frame down, where it does: the frame is
    /// the join that the session awaits, and the id of the spawn is taken.
    pub open spec fn refusal(self, frame: FrameView, spawn: SpawnView) -> Option<RegistryError> {
        if self.joins(frame) && self.server.players.contains_key(spawn.id) {
            Some(RegistryError::DuplicateId)
        } else {
            None
        }
    }

    /// Whether the step from `self` to `after` is a join.
    pub open spec fn joined(self, after: Scene) -> bool {
        self.session.phase is AwaitingJoin && after.session.phase is Active
    }
}

/// Whether `reaction` is what a session owes after the step from `before`
/// to `after`: after a join the welcome, which names the new player's id and
/// lists every registered player exactly once, and else no reply; and the
/// word on whether the session goes on.
pub open spec fn reacts(reaction: Reaction, before: Scene, after: Scene) -> bool {
    &&& reaction.open == after.session.is_open()
    &&& before.joined(after) ==> {
        &&& reaction.reply is Some
        &&& reaction.reply->Some_0@ is Welcome
        &&& after.session.phase == PhaseView::Active { player_id: reaction.reply->Some_0@->your_id }
        &&& lists_exactly(reaction.reply->Some_0@->players, after.server.players)
    }
    &&& !before.joined(after) ==> reaction.reply is None
}

/// A session that joins is welcomed with the players that are registered
/// at that moment, itself among them: where the join of a session that
/// awaits it brings a player whose id is free, the welcome lists the new
/// player and every player that was registered before, each once and as the
/// registry holds it, and nobody else.
pub proof fn law_welcome_lists_everyone(
    before: Scene,
    nickname: Option<Seq<char>>,
    spawn: SpawnView,
    now: u64,
    reaction: Reaction,
)
    requires
        before.session.phase is AwaitingJoin,
        before.server.keyed(),
        before.server.players.dom().finite(),
        before.server.bus.issued < u64::MAX,
        !before.server.players.contains_key(spawn.id),
        reacts(reaction, before, before.handled(FrameView::Message(ClientMessageView::Join { nickname }), spawn, now)),
    ensures
        reaction.reply is Some,
        reaction.reply->Some_0@ is Welcome,
        reaction.reply->Some_0@->your_id == spawn.id,
        reaction.reply->Some_0@->players.len() == before.server.players.dom().len() + 1,
        exists|i: int|
            0 <= i < reaction.reply->Some_0@->players.len() && #[trigger] reaction.reply->Some_0@->players[i]
                == assembled(spawn, nickname, now),
        forall|id: Seq<char>| #[trigger]
            before.server.players.contains_key(id) ==> exists|i: int|
                0 <= i < reaction.reply->Some_0@->players.len() && #[trigger] reaction.reply->Some_0@->players[i]
                    == before.server.players[id],
        forall|i: int|
            0 <= i < reaction.reply->Some_0@->players.len() ==> (#[trigger] reaction.reply->Some_0@->players[i])
                == assembled(spawn, nickname, now) || before.server.players.contains_value(
                reaction.reply->Some_0@->players[i],
            ),
{
    let player = assembled(spawn, nickname, now);
    let after = before.handled(FrameView::Message(ClientMessageView::Join { nickname }), spawn, now);
    let list = reaction.reply->Some_0@->players;
    assert(before.joined(after));
    assert(after.server.players == before.server.players.insert(player.id, player));
    assert(after.server.players.contains_key(player.id));
    let at = choose|i: int| 0 <= i < list.len() && #[trigger] list[i].id == player.id;
    assert(list[at] == player);
    assert forall|id: Seq<char>| #[trigger] before.server.players.contains_key(id) implies exists|i: int|
        0 <= i < list.len() && #[trigger] list[i] == before.server.players[id] by {
        assert(after.server.players.contains_key(id));
        let i = choose|i: int| 0 <= i < list.len() && #[trigger] list[i].id == id;
        assert(list[i] == after.server.players[id]);
    }
    assert forall|i: int| 0 <= i < list.len() implies (#[trigger] list[i]) == player
        || before.server.players.contains_value(list[i]) by {
        let id = list[i].id;
        assert(after.server.players.contains_key(id));
        if id != player.id {
            assert(before.server.players.contains_key(id));
            assert(before.server.players[id] == list[i]);
        }
    }
}

/// The welcome of a third player lists all three. Where two players are
/// registered, and a session that awaits its join sends it and is not turned
/// down, the welcome names the new player's id and lists three players: the
/// two that were there, each as the registry holds it, and the new one; no
/// two of them share an id.
pub proof fn law_welcome_of_a_third_player(
    before: Scene,
    nickname: Option<Seq<char>>,
    spawn: SpawnView,
    now: u64,
    reaction: Reaction,
    one: PlayerView,
    other: PlayerView,
)
    requires
        before.session.phase is AwaitingJoin,
        before.server.bus.issued < u64::MAX,
        one.id != other.id,
        before.server.players == Map::<Seq<char>, PlayerView>::empty().insert(one.id, one).insert(other.id, other),
        reaction.refused == before.refusal(FrameView::Message(ClientMessageView::Join { nickname }), spawn),
        reaction.refused is None,
        reacts(reaction, before, before.handled(FrameView::Message(ClientMessageView::Join { nickname }), spawn, now)),
    ensures
        reaction.reply is Some,
        reaction.reply->Some_0@ is Welcome,
        reaction.reply->Some_0@->your_id == spawn.id,
        reaction.reply->Some_0@->players.len() == 3,
        reaction.reply->Some_0@->players.contains(one),
        reaction.reply->Some_0@->players.contains(other),
        reaction.reply->Some_0@->players.contains(assembled(spawn, nickname, now)),
        forall|i: int, j: int|
            0 <= i < j < 3 ==> (#[trigger] reaction.reply->Some_0@->players[i]).id
                != (#[trigger] reaction.reply->Some_0@->players[j]).id,
{
    let players = before.server.players;
    assert(players.dom() =~= Set::<Seq<char>>::empty().insert(one.id).insert(other.id));
    assert(players.contains_key(one.id) && players.contains_key(other.id));
    assert(players[one.id] == one && players[other.id] == other);
    law_welcome_lists_everyone(before, nickname, spawn, now, reaction);
    let list = reaction.reply->Some_0@->players;
    let i = choose|i: int| 0 <= i < list.len() && #[trigger] list[i] == before.server.players[one.id];
    assert(list[i] == one);
    let j = choose|j: int| 0 <= j < list.len() && #[trigger] list[j] == before.server.players[other.id];
    assert(list[j] == other);
}

/// A session changes no player but its own: whatever message it takes,
/// every player with another id than that of the session's player is
/// registered afterwards exactly as before, unless the message is the join
/// that registers that very player.
pub proof fn law_session_touches_only_its_player(
    before: Scene,
    message: ClientMessageView,
    spawn: SpawnView,
    now: u64,
    other: Seq<char>,
)
    requires
        before.session.phase matches PhaseView::Active { player_id } ==> other != player_id,
        before.session.phase is AwaitingJoin ==> other != spawn.id,
    ensures
        before.dispatched(message, spawn, now).server.players.contains_key(other)
            == before.server.players.contains_key(other),
        before.server.players.contains_key(other) ==> before.dispatched(message, spawn, now).server.players[other]
            == before.server.players[other],
{
}

/// The course of a session as it sees it itself, and as a subscriber sees
/// it that was there before. On a server where nobody is registered, a
/// session that awaits the join joins, moves and ends. Nothing waits for the
/// session before its join. After the move, its own queue holds, in this
/// order: that the player joined, and that it moved to the position asked
/// for, clamped onto the field. A subscriber from before that had nothing
/// pending then finds the same two messages in its queue, and after the end
/// a third: that the player left. The player is then no longer registered,
/// the session is closed, and its subscription is gone.
pub proof fn law_course_of_a_session(
    before: Scene,
    nickname: Option<Seq<char>>,
    spawn: SpawnView,
    x: Coord,
    y: Coord,
    now: u64,
    watcher: u64,
)
    requires
        before.session.phase is AwaitingJoin,
        before.server.players == Map::<Seq<char>, PlayerView>::empty(),
        before.server.bus.capacity >= 3,
        before.server.bus.issued < u64::MAX,
        watcher < before.server.bus.issued,
        before.server.bus.queues.contains_key(watcher),
        before.server.bus.queues[watcher].len() == 0,
    ensures
        ({
            let joined = before.handled(FrameView::Message(ClientMessageView::Join { nickname }), spawn, now);
            let moved = joined.handled(FrameView::Message(ClientMessageView::Move { x, y }), spawn, now);
            let ended = moved.handled(FrameView::End, spawn, now);
            let own = before.server.bus.issued as u64;
            &&& before.session.pending(before.server).len() == 0
            &&& joined.session.phase == PhaseView::Active { player_id: spawn.id }
            &&& joined.session.subscription == Some(own)
            &&& joined.server.players.contains_key(spawn.id)
            &&& moved.server.players[spawn.id].x == x.field_x()
            &&& moved.server.players[spawn.id].y == y.field_y()
            &&& moved.session.pending(moved.server) == seq![
                ServerMessageView::PlayerJoined { player: assembled(spawn, nickname, now) },
                ServerMessageView::PlayerMoved { player_id: spawn.id, x: x.field_x(), y: y.field_y() },
            ]
            &&& ended.session.phase is Closed
            &&& !ended.server.players.contains_key(spawn.id)
            &&& !ended.server.bus.queues.contains_key(own)
            &&& ended.server.bus.queues.contains_key(watcher)
            &&& ended.server.bus.queues[watcher] == seq![
                ServerMessageView::PlayerJoined { player: assembled(spawn, nickname, now) },
                ServerMessageView::PlayerMoved { player_id: spawn.id, x: x.field_x(), y: y.field_y() },
                ServerMessageView::PlayerLeft { player_id: spawn.id },
            ]
        }),
{
    let joined = before.handled(FrameView::Message(ClientMessageView::Join { nickname }), spawn, now);
    let moved = joined.handled(FrameView::Message(ClientMessageView::Move { x, y }), spawn, now);
    let ended = moved.handled(FrameView::End, spawn, now);
    let player = assembled(spawn, nickname, now);
    let own = before.server.bus.issued as u64;
    let first = ServerMessageView::PlayerJoined { player };
    let second = ServerMessageView::PlayerMoved { player_id: spawn.id, x: x.field_x(), y: y.field_y() };
    let third = ServerMessageView::PlayerLeft { player_id: spawn.id };
    assert(joined.server.bus.queues[watcher] =~= seq![first]);
    assert(joined.server.bus.queues[own] =~= seq![first]);
    assert(moved.server.bus.queues[watcher] =~= seq![first, second]);
    assert(moved.server.bus.queues[own] =~= seq![first, second]);
    let left = moved.deregistered();
    assert(left.server.bus.queues[watcher] =~= seq![first, second, third]);
    assert(ended == left.released());
}

/// A session that has not joined is told nothing: whatever is published
/// while it awaits its join, nothing waits to be relayed to it, then or
/// later.
pub proof fn law_nothing_before_the_join(
    session: SessionView,
    server: ServerView,
    stream: Seq<ServerMessageView>,
)
    requires
        !(session.phase is Active),
    ensures
        session.pending(server).len() == 0,
        session.pending(server.broadcast_all(stream)).len() == 0,
{
}

impl Session {
    /// What the session holds.
    pub closed spec fn view(&self) -> SessionView {
        SessionView {
            phase: self.phase@,
            subscription: match self.subscription {
                Some(id) => Some(id.raw),
                None => None,
            },
        }
    }

    /// A session whose transport is not accepted yet.
    pub fn new() -> (session: Session)
        ensures
            session@ == (SessionView { phase: PhaseView::Connecting, subscription: None }),
    {
        Session { phase: Phase::Connecting, subscription: None }
    }

    /// Whether the session takes frames and messages.
    pub fn is_open(&self) -> (open: bool)
        ensures
            open == self@.is_open(),
    {
        match &self.phase {
            Phase::AwaitingJoin => true,
            Phase::Active { .. } => true,
            _ => false,
        }
    }

    /// Whether nothing is left of the session.
    pub fn is_closed(&self) -> (closed: bool)
        ensures
            closed == (self@.phase is Closed),
    {
        match &self.phase {
            Phase::Closed => true,
            _ => false,
        }
    }

    /// The id of the session's player, once it has joined.
    pub fn player_id(&self) -> (id: Option<String>)
        ensures
            self@.phase is Active ==> id is Some && id->Some_0@ == self@.phase->player_id,
            !(self@.phase is Active) ==> id is None,
    {
        match &self.phase {
            Phase::Active { player_id } => Some(player_id.clone()),
            _ => None,
        }
    }

    /// The session's subscription, while it has one.
    pub fn subscription(&self) -> (id: Option<SubscriberId>)
        ensures
            id is Some <==> self@.subscription is Some,
            id matches Some(s) ==> self@.subscription == Some(s.raw),
    {
        self.subscription
    }

    /// Tells the session that the transport was accepted, and says whether
    /// it now takes frames.
    pub fn accept(&mut self) -> (open: bool)
        ensures
            final(self)@ == old(self)@.accepted(),
            open == final(self)@.is_open(),
    {
        match &self.phase {
            Phase::Connecting => {
                self.phase = Phase::AwaitingJoin;
                true
            },
            _ => self.is_open(),
        }
    }

    /// Deregisters the session's player: the first half of closing.
    pub fn begin_close(&mut self, server: &mut GameServer)
        requires
            old(server).wf(),
        ensures
            final(server).wf(),
            (Scene { session: final(self)@, server: final(server)@ }) == (Scene {
                session: old(self)@,
                server: old(server)@,
            }).deregistered(),
    {
        match &self.phase {
            Phase::Active { player_id } => {
                let _ = server.remove_player(player_id.as_str());
                self.phase = Phase::Closing;
            },
            Phase::Closed => {},
            _ => {
                self.phase = Phase::Closing;
            },
        }
    }

    /// Releases the subscription of a closing session: the second half of
    /// closing.
    pub fn finish_close(&mut self, server: &mut GameServer)
        requires
            old(server).wf(),
        ensures
            final(server).wf(),
            (Scene { session: final(self)@, server: final(server)@ }) == (Scene {
                session: old(self)@,
                server: old(server)@,
            }).released(),
    {
        match &self.phase {
            Phase::Closing => {
                match self.subscription {
                    Some(id) => {
                        let _ = server.unsubscribe(id);
                    },
                    None => {},
                }
                self.phase = Phase::Closed;
                self.subscription = None;
            },
            _ => {},
        }
    }

    /// Closes the session: its player is deregistered and its leaving
    /// announced, then the subscription is released. Closing a closed
    /// session does nothing.
    pub fn close(&mut self, server: &mut GameServer)
        requires
            old(server).wf(),
        ensures
            final(server).wf(),
            final(self)@.phase is Closed,
            (Scene { session: final(self)@, server: final(server)@ }) == (Scene {
                session: old(self)@,
                server: old(server)@,
            }).closed(),
    {
        self.begin_close(server);
        self.finish_close(server);
    }

    /// Takes a frame of the client, with the spawn to make the player of if
    /// the frame is a join, and the time.
    pub fn handle_at(&mut self, server: &mut GameServer, frame: Frame, spawn: Spawn, now: u64) -> (reaction:
        Reaction)
        requires
            old(server).wf(),
            spawn@.valid(),
        ensures
            final(server).wf(),
            (Scene { session: final(self)@, server: final(server)@ }) == (Scene {
                session: old(self)@,
                server: old(server)@,
            }).handled(frame@, spawn@, now),
            reacts(
                reaction,
                Scene { session: old(self)@, server: old(server)@ },
                Scene { session: final(self)@, server: final(server)@ },
            ),
            reaction.refused == (Scene { session: old(self)@, server: old(server)@ }).refusal(frame@, spawn@),
    {
        self.step(server, frame, Some(spawn), now)
    }

    /// Takes a frame of the client: [`Session::handle_at`] at the time that
    /// the system clock shows, with a spawn that is drawn where the frame is
    /// the join that the session awaits.
    pub fn handle(&mut self, server: &mut GameServer, frame: Frame) -> (reaction: Reaction)
        requires
            old(server).wf(),
        ensures
            final(server).wf(),
            exists|spawn: SpawnView, now: u64|
                spawn.drawn() && (Scene { session: final(self)@, server: final(server)@ }) == #[trigger] (Scene {
                    session: old(self)@,
                    server: old(server)@,
                }).handled(frame@, spawn, now) && reaction.refused == (Scene {
                    session: old(self)@,
                    server: old(server)@,
                }).refusal(frame@, spawn),
            reacts(
                reaction,
                Scene { session: old(self)@, server: old(server)@ },
                Scene { session: final(self)@, server: final(server)@ },
            ),
    {
        let joining = match (&self.phase, &frame) {
            (Phase::AwaitingJoin, Frame::Message(ClientMessage::Join { .. })) => true,
            _ => false,
        };
        let spawn = if joining {
            Some(Spawn::draw())
        } else {
            None
        };
        let now = unix_seconds();
        let ghost drawn = if spawn is Some {
            spawn->Some_0@
        } else {
            some_spawn()
        };
        proof {
            lemma_some_spawn();
        }
        let reaction = self.step(server, frame, spawn, now);
        assert((Scene { session: self@, server: server@ }) == (Scene {
            session: old(self)@,
            server: old(server)@,
        }).handled(frame@, drawn, now));
        reaction
    }

    fn step(&mut self, server: &mut GameServer, frame: Frame, spawn: Option<Spawn>, now: u64) -> (reaction:
        Reaction)
        requires
            old(server).wf(),
            (Scene { session: old(self)@, server: old(server)@ }).joins(frame@) ==> spawn is Some,
            spawn matches Some(given) ==> given@.valid(),
        ensures
            final(server).wf(),
            forall|s: SpawnView|
                (spawn matches Some(given) ==> s == given@) ==> (Scene {
                    session: final(self)@,
                    server: final(server)@,
                }) == #[trigger] (Scene { session: old(self)@, server: old(server)@ }).handled(frame@, s, now)
                    && reaction.refused == (Scene { session: old(self)@, server: old(server)@ }).refusal(
                    frame@,
                    s,
                ),
            reacts(
                reaction,
                Scene { session: old(self)@, server: old(server)@ },
                Scene { session: final(self)@, server: final(server)@ },
            ),
    {
        if !self.is_open() {
            return Reaction { reply: None, open: false, refused: None };
        }
        match frame {
            Frame::Message(message) => self.dispatch(server, message, spawn, now),
            Frame::Undecodable => Reaction { reply: None, open: true, refused: None },
            Frame::Other => Reaction { reply: None, open: true, refused: None },
            Frame::Close => {
                self.close(server);
                Reaction { reply: None, open: false, refused: None }
            },
            Frame::Broken => {
                self.close(server);
                Reaction { reply: None, open: false, refused: None }
            },
            Frame::End => {
                self.close(server);
                Reaction { reply: None, open: false, refused: None }
            },
        }
    }

    fn dispatch(
        &mut self,
        server: &mut GameServer,
        message: ClientMessage,
        spawn: Option<Spawn>,
        now: u64,
    ) -> (reaction: Reaction)
        requires
            old(server).wf(),
            old(self)@.is_open(),
            old(self)@.phase is AwaitingJoin && message@ is Join ==> spawn is Some,
            spawn matches Some(given) ==> given@.valid(),
        ensures
            final(server).wf(),
            forall|s: SpawnView|
                (spawn matches Some(given) ==> s == given@) ==> (Scene {
                    session: final(self)@,
                    server: final(server)@,
                }) == #[trigger] (Scene { session: old(self)@, server: old(server)@ }).dispatched(message@, s, now)
                    && reaction.refused == (Scene { session: old(self)@, server: old(server)@ }).refusal(
                    FrameView::Message(message@),
                    s,
                ),
            reacts(
                reaction,
                Scene { session: old(self)@, server: old(server)@ },
                Scene { session: final(self)@, server: final(server)@ },
            ),
    {
        match &self.phase {
            Phase::AwaitingJoin => match message {
                ClientMessage::Join { nickname } => self.join(server, nickname, spawn.unwrap(), now),
                _ => Reaction { reply: None, open: true, refused: None },
            },
            Phase::Active { player_id } => {
                match message {
                    ClientMessage::Join { .. } => {},
                    ClientMessage::Move { x, y } => {
                        let _ = server.move_player_at(player_id.as_str(), x, y, now);
                    },
                    ClientMessage::Chat { message } => {
                        let _ = server.send_chat_at(player_id.as_str(), message, now);
                    },
                    ClientMessage::ChangeNick { nickname } => {
                        let _ = server.rename_player(player_id.as_str(), nickname);
                    },
                }
                Reaction { reply: None, open: true, refused: None }
            },
            _ => Reaction { reply: None, open: true, refused: None },
        }
    }

    fn join(
        &mut self,
        server: &mut GameServer,
        nickname: Option<String>,
        spawn: Spawn,
        now: u64,
    ) -> (reaction: Reaction)
        requires
            old(server).wf(),
            old(self)@.phase is AwaitingJoin,
            spawn@.valid(),
        ensures
            final(server).wf(),
            (Scene { session: final(self)@, server: final(server)@ }) == (Scene {
                session: old(self)@,
                server: old(server)@,
            }).joined_as(brought(nickname), spawn@, now),
            reaction.refused == (if old(server)@.players.contains_key(spawn@.id) {
                Some(RegistryError::DuplicateId)
            } else {
                None
            }),
            reacts(
                reaction,
                Scene { session: old(self)@, server: old(server)@ },
                Scene { session: final(self)@, server: final(server)@ },
            ),
    {
        proof {
            server.lemma_invariant();
        }
        if server.player(spawn.id.as_str()).is_some() {
            return Reaction { reply: None, open: true, refused: Some(RegistryError::DuplicateId) };
        }
        match server.subscribe() {
            None => {
                self.close(server);
                Reaction { reply: None, open: false, refused: None }
            },
            Some(subscription) => {
                let player = Player::assemble(spawn, nickname, now);
                let announced = player.clone();
                match server.add_player(player) {
                    Err(refused) => Reaction { reply: None, open: true, refused: Some(refused) },
                    Ok(id) => {
                        let _ = server.broadcast_message(ServerMessage::PlayerJoined { player: announced });
                        let welcome = server.get_welcome_message(id.as_str());
                        self.phase = Phase::Active { player_id: id };
                        self.subscription = Some(subscription);
                        Reaction { reply: Some(welcome), open: true, refused: None }
                    },
                }
            },
        }
    }

    /// Takes the oldest message that the bus holds for the session, to be
    /// written to the connection; `None` where nothing waits for it. Nothing
    /// waits for a session that is not active.
    pub fn next_outbound(&self, server: &mut GameServer) -> (message: Option<ServerMessage>)
        requires
            old(server).wf(),
        ensures
            final(server).wf(),
            self@.pending(old(server)@).len() > 0 ==> message is Some && message->Some_0@ == self@.pending(
                old(server)@,
            )[0] && final(server)@ == old(server)@.take(self@.subscription->Some_0),
            self@.pending(old(server)@).len() == 0 ==> message is None && final(server)@ == old(server)@,
    {
        match (&self.phase, self.subscription) {
            (Phase::Active { .. }, Some(id)) => server.next_message(id),
            _ => None,
        }
    }

    /// Whether the session has joined and not ended.
    pub fn is_active(&self) -> (active: bool)
        ensures
            active == (self@.phase is Active),
    {
        match &self.phase {
            Phase::Active { .. } => true,
            _ => false,
        }
    }
}

} // verus!
