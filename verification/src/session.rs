use vstd::prelude::*;
use crate::ids::{fresh_user_id, is_random_uuid};
use crate::registry::UserRegistry;
use crate::stream::{all_entries, replay, replay_stream, texts_view, DumpError, StreamReply};

verus! {

/// Where a painter's connection stands.
#[derive(Debug, Clone, Copy, PartialEq, Eq, Structural)]
pub enum Phase {
    /// Registered; the stored strokes are still to be sent to it.
    Replaying,
    /// Receiving the strokes it draws and relaying them.
    Live,
    /// Finished: nothing more is relayed for it.
    Done,
}

/// One painter's connection.
pub struct Session {
    pub user_id: u128,
    pub phase: Phase,
}

/// What the painter's websocket yielded next.
pub enum Incoming {
    /// A text message: a stroke.
    Text(String),
    /// A message that is not text (binary, ping, pong or close).
    NotText,
    /// The websocket failed.
    Failed,
    /// The websocket has nothing more.
    Ended,
}

/// What to do about what the websocket yielded.
pub enum Reaction {
    /// Send `text` to each painter in `recipients`, then store it in the stream
    /// under the sender's id.
    Relay { recipients: Vec<u128>, text: String },
    /// Stop listening to this painter.
    Leave,
}

/// The strokes to send to a newcomer, and why the replay stopped early, if it did.
pub struct Replay {
    pub texts: Vec<String>,
    pub failure: Option<DumpError>,
}

impl Session {
    /// A painter has connected: draws a fresh id for it and registers `tx`,
    /// the handle that reaches it, under that id.
    pub fn connect_user<S>(users: &mut UserRegistry<S>, tx: S) -> (s: Session)
        ensures
            is_random_uuid(s.user_id),
            s.phase == Phase::Replaying,
            final(users)@ == old(users)@.insert(s.user_id, tx),
    {
        let user_id = fresh_user_id();
        users.insert(user_id, tx);
        Session { user_id, phase: Phase::Replaying }
    }

    /// The stored strokes, read from the stream as `reply`, that go to this
    /// painter: all of them in stream order when the painter is registered,
    /// none otherwise. Every entry is read either way, and the replay stops at
    /// the first entry that holds no stroke, which ends the session.
    /// Outside the replaying phase nothing is sent and nothing changes.
    pub fn initial_dump<S>(&mut self, reply: &StreamReply, users: &UserRegistry<S>) -> (r: Replay)
        ensures
            final(self).user_id == old(self).user_id,
            old(self).phase == Phase::Replaying ==> {
                let (texts, failure) = replay(all_entries(reply.keys@));
                &&& texts_view(r.texts@) == (if users@.contains_key(old(self).user_id) {
                    texts
                } else {
                    Seq::empty()
                })
                &&& r.failure == failure
                &&& final(self).phase == (if failure is None {
                    Phase::Live
                } else {
                    Phase::Done
                })
            },
            old(self).phase != Phase::Replaying ==> {
                &&& r.texts@.len() == 0
                &&& r.failure is None
                &&& final(self).phase == old(self).phase
            },
    {
        if self.phase != Phase::Replaying {
            return Replay { texts: Vec::new(), failure: None };
        }
        let (texts, failure) = replay_stream(reply);
        self.phase = match failure {
            None => Phase::Live,
            Some(_) => Phase::Done,
        };
        if users.contains(self.user_id) {
            Replay { texts, failure }
        } else {
            let none: Vec<String> = Vec::new();
            assert(texts_view(none@) =~= Seq::<Seq<char>>::empty());
            Replay { texts: none, failure }
        }
    }

    /// Reacts to what the websocket yielded. A text message from a live
    /// painter goes, unchanged, to every other registered painter, each once;
    /// the session stays live. Anything else, or anything in another phase,
    /// ends the session.
    pub fn handle_incoming_data<S>(&mut self, event: Incoming, users: &UserRegistry<S>) -> (r:
        Reaction)
        ensures
            final(self).user_id == old(self).user_id,
            (old(self).phase == Phase::Live && event is Text) ==> {
                &&& final(self).phase == Phase::Live
                &&& r matches Reaction::Relay { recipients, text }
                &&& text == event->Text_0
                &&& recipients@.no_duplicates()
                &&& forall|k: u128|
                    recipients@.contains(k) <==> (users@.contains_key(k) && k
                        != old(self).user_id)
            },
            !(old(self).phase == Phase::Live && event is Text) ==> {
                &&& final(self).phase == Phase::Done
                &&& r is Leave
            },
    {
        if self.phase != Phase::Live {
            self.phase = Phase::Done;
            return Reaction::Leave;
        }
        match event {
            Incoming::Text(text) => {
                let recipients = users.others(self.user_id);
                Reaction::Relay { recipients, text }
            },
            _ => {
                self.phase = Phase::Done;
                Reaction::Leave
            },
        }
    }

    /// The painter has gone: forgets it in `users` and ends the session.
    pub fn handle_disconnecting<S>(&mut self, users: &mut UserRegistry<S>)
        ensures
            final(users)@ == old(users)@.remove(old(self).user_id),
            final(self).user_id == old(self).user_id,
            final(self).phase == Phase::Done,
    {
        users.remove(self.user_id);
        self.phase = Phase::Done;
    }
}

/// A painter that connects under an id nobody holds and then disconnects
/// leaves the registry exactly as it found it.
pub proof fn lemma_disconnect_undoes_connect<S>(before: Map<u128, S>, user_id: u128, tx: S)
    requires
        !before.contains_key(user_id),
    ensures
        before.insert(user_id, tx).remove(user_id) == before,
{
    assert(before.insert(user_id, tx).remove(user_id) =~= before);
}

} // verus!
