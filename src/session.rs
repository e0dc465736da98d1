use vstd::prelude::*;
use crate::entity::{entity_at, Entity, Role};
use crate::reconcile::{reconcile, reconciled, SINGLE_FRAME_LEN};
use crate::world::World;

verus! {

/// The port the authoritative peer listens on.
pub const PEER_PORT: u16 = 8080;

/// How the session's socket waits for datagrams.
#[derive(Clone, Copy, Debug, PartialEq, Eq, Structural)]
pub enum Mode {
    /// Waits until a datagram comes: only for the join reply.
    Blocking,
    /// Returns at once when nothing is there: for the frame loop.
    NonBlocking,
}

/// Why a join failed.
#[derive(Clone, Copy, Debug, PartialEq, Eq, Structural)]
pub enum JoinError {
    /// The reply did not hold exactly four values.
    Malformed,
}

/// What one poll of the socket brought.
pub enum Receipt<T> {
    /// A datagram came; these are the values decoded from it.
    Frame(Vec<T>),
    /// Nothing was there this tick.
    WouldBlock,
    /// The socket reported an error.
    Failed,
}

/// What the frame loop should do about a poll.
#[derive(Clone, Copy, Debug, PartialEq, Eq, Structural)]
pub enum Report {
    /// Nothing to report.
    Quiet,
    /// Report the socket error and carry on.
    Error,
}

/// The join state of a session with the peer.
pub struct Session {
    mode: Mode,
}

impl View for Session {
    type V = Mode;

    closed spec fn view(&self) -> Mode {
        self.mode
    }
}

impl Session {
    /// A session that has not joined yet: its socket blocks.
    pub fn new() -> (r: Session)
        ensures
            r@ == Mode::Blocking,
    {
        Session { mode: Mode::Blocking }
    }

    /// The current waiting mode.
    pub fn mode(&self) -> (r: Mode)
        ensures
            r == self@,
    {
        self.mode
    }

    /// The datagram that asks the peer to let this one join.
    pub fn join_request(&self) -> (r: &'static str)
        ensures
            r@ == seq!['j', 'o', 'i', 'n'],
    {
        let r = "join";
        proof {
            reveal_strlit("join");
        }
        r
    }

    /// Takes the values of the peer's join reply. Exactly four make the local
    /// player, and the session switches to non-blocking; any other count is a
    /// failed join and the session stays as it was.
    pub fn complete_join<T: Copy>(&mut self, reply: &[T]) -> (r: Result<Entity<T>, JoinError>)
        requires
            old(self)@ == Mode::Blocking,
        ensures
            r is Ok <==> reply@.len() == SINGLE_FRAME_LEN,
            r is Ok ==> r == Ok::<Entity<T>, JoinError>(entity_at(reply@, 0, Role::LocalPlayer)),
            r is Err ==> r == Err::<Entity<T>, JoinError>(JoinError::Malformed),
            final(self)@ == (if r is Ok {
                Mode::NonBlocking
            } else {
                Mode::Blocking
            }),
    {
        if reply.len() != SINGLE_FRAME_LEN {
            return Err(JoinError::Malformed);
        }
        let player = Entity::from_frame(reply, 0, Role::LocalPlayer);
        self.mode = Mode::NonBlocking;
        Ok(player)
    }
}

/// The world that a successful join starts: the local player alone.
pub fn start_world<T: Copy>(player: Entity<T>) -> (r: World<T>)
    requires
        player.role == Role::LocalPlayer,
    ensures
        r.wf(),
        r@ == seq![player],
{
    let mut w = World::new();
    w.add(player);
    proof {
        assert(Seq::<Entity<T>>::empty().push(player) =~= seq![player]);
    }
    w
}

/// Folds one poll into the world: a frame is reconciled, an empty poll and a
/// socket error leave the world as it was, and only the error is reported.
pub fn on_receive<T: Copy>(world: &mut World<T>, receipt: &Receipt<T>) -> (r: Report)
    requires
        old(world).wf(),
    ensures
        final(world).wf(),
        match receipt {
            Receipt::Frame(f) => final(world)@ == reconciled(old(world)@, f@) && r == Report::Quiet,
            Receipt::WouldBlock => final(world)@ == old(world)@ && r == Report::Quiet,
            Receipt::Failed => final(world)@ == old(world)@ && r == Report::Error,
        },
{
    match receipt {
        Receipt::Frame(f) => {
            reconcile(world, f.as_slice());
            Report::Quiet
        },
        Receipt::WouldBlock => Report::Quiet,
        Receipt::Failed => Report::Error,
    }
}

} // verus!
