//! The session: the session key and user id once logged in, the joined
//! rooms, and which of them is current.

use std::collections::HashMap;
use vstd::prelude::*;
use vstd::std_specs::iter::IteratorSpec;
use crate::error::SeError;
use crate::event::ChatEventType;
use crate::login::Authenticated;
use crate::message::{Message, message_of, with_arrival};
use crate::room::{Room, history_applied};
use crate::web::HttpOutcome;

verus! {

broadcast use vstd::std_specs::hash::group_hash_axioms;

/// How a room was joined.
#[derive(Debug, Clone, Copy, PartialEq, Eq, Structural)]
pub enum Joined {
    /// The room was joined before; nothing new was made.
    Existing,
    /// The room is new: its connector has to be started.
    Created,
}

/// The session of one user.
pub struct User {
    fkey: Option<String>,
    user_id: Option<u64>,
    rooms: HashMap<u64, Room>,
    current_room: Option<u64>,
}

/// What joining `id` does to the session `before`, giving `after` and the
/// result `r`.
pub open spec fn join_spec(before: User, id: u64, after: User, r: Result<Joined, SeError>) -> bool {
    if before.spec_rooms().contains_key(id) {
        r == Ok::<Joined, SeError>(Joined::Existing) && after == before
    } else if before.spec_user_id() is None {
        r == Err::<Joined, SeError>(SeError::NotAuthenticated) && after == before
    } else {
        let room = after.spec_rooms()[id];
        &&& r == Ok::<Joined, SeError>(Joined::Created)
        &&& after.spec_fkey() == before.spec_fkey()
        &&& after.spec_user_id() == before.spec_user_id()
        &&& after.spec_rooms() == before.spec_rooms().insert(id, room)
        &&& room.spec_id() == id
        &&& Some(room.spec_fkey()) == before.spec_fkey()
        &&& Some(room.spec_user_id()) == before.spec_user_id()
        &&& room.spec_messages() == Seq::<Message>::empty()
        &&& after.spec_current() == if before.spec_rooms().is_empty() {
            Some(id)
        } else {
            before.spec_current()
        }
    }
}

/// Joining a room twice in a row: the second join finds the room of the
/// first, makes nothing new and leaves the session as it was.
pub proof fn lemma_join_twice(
    u0: User,
    u1: User,
    u2: User,
    id: u64,
    r1: Result<Joined, SeError>,
    r2: Result<Joined, SeError>,
)
    requires
        join_spec(u0, id, u1, r1),
        join_spec(u1, id, u2, r2),
        r1 is Ok,
    ensures
        r2 == Ok::<Joined, SeError>(Joined::Existing),
        u2 == u1,
{
}

impl User {
    pub closed spec fn spec_fkey(&self) -> Option<Seq<char>> {
        match self.fkey {
            Some(k) => Some(k@),
            None => None,
        }
    }

    pub closed spec fn spec_user_id(&self) -> Option<u64> {
        self.user_id
    }

    /// The joined rooms, by id.
    pub closed spec fn spec_rooms(&self) -> Map<u64, Room> {
        self.rooms@
    }

    pub closed spec fn spec_current(&self) -> Option<u64> {
        self.current_room
    }

    /// The session key and the user id are there together or not at all,
    /// and each room is filed under its own id.
    pub open spec fn wf(&self) -> bool {
        &&& (self.spec_fkey() is Some <==> self.spec_user_id() is Some)
        &&& forall|k: u64| #[trigger] self.spec_rooms().contains_key(k) ==> self.spec_rooms()[k].spec_id() == k
    }

    /// A session that is not logged in and has joined no room.
    pub fn new() -> (r: User)
        ensures
            r.wf(),
            r.spec_fkey() is None,
            r.spec_user_id() is None,
            r.spec_rooms().is_empty(),
            r.spec_current() is None,
    {
        let r = User { fkey: None, user_id: None, rooms: HashMap::new(), current_room: None };
        assert(r.rooms@ =~= Map::<u64, Room>::empty());
        r
    }

    /// Takes in the end of a login handshake: on success the session holds
    /// its key and user id; on failure it stays as it was.
    pub fn finish_login(&mut self, result: Result<Authenticated, SeError>) -> (r: Result<(), SeError>)
        requires
            old(self).wf(),
        ensures
            final(self).wf(),
            final(self).spec_rooms() == old(self).spec_rooms(),
            final(self).spec_current() == old(self).spec_current(),
            match result {
                Ok(a) => r is Ok && final(self).spec_fkey() == Some(a.fkey@) && final(self).spec_user_id()
                    == Some(a.user_id),
                Err(e) => r == Err::<(), SeError>(e) && final(self).spec_fkey() == old(self).spec_fkey()
                    && final(self).spec_user_id() == old(self).spec_user_id(),
            },
    {
        match result {
            Ok(a) => {
                self.fkey = Some(a.fkey);
                self.user_id = Some(a.user_id);
                assert(self.spec_rooms() == old(self).spec_rooms());
                Ok(())
            },
            Err(e) => Err(e),
        }
    }

    pub fn is_authenticated(&self) -> (r: bool)
        ensures
            r == (self.spec_user_id() is Some),
    {
        self.user_id.is_some()
    }

    pub fn user_id(&self) -> (r: Option<u64>)
        ensures
            r == self.spec_user_id(),
    {
        self.user_id
    }

    /// Joins the room `id`. A room joined before is found again and nothing
    /// new is made; otherwise the session must be logged in, the room is
    /// made with an empty buffer, and it becomes current if it is the first.
    pub fn join_room(&mut self, room_id: u64) -> (r: Result<Joined, SeError>)
        requires
            old(self).wf(),
        ensures
            final(self).wf(),
            join_spec(*old(self), room_id, *final(self), r),
    {
        if self.rooms.contains_key(&room_id) {
            return Ok(Joined::Existing);
        }
        match (&self.fkey, self.user_id) {
            (Some(fkey), Some(user_id)) => {
                if self.rooms.is_empty() {
                    self.current_room = Some(room_id);
                }
                let room = Room::new(fkey.clone(), user_id, room_id);
                self.rooms.insert(room_id, room);
                assert forall|k: u64| #[trigger] self.spec_rooms().contains_key(k) implies self.spec_rooms()[k].spec_id() == k by {
                    if k != room_id {
                        assert(old(self).spec_rooms().contains_key(k));
                    }
                }
                Ok(Joined::Created)
            },
            _ => Err(SeError::NotAuthenticated),
        }
    }

    /// Leaves the room `id`: it is taken out of the session and handed back,
    /// so that the caller can tell the service and stop its connector. The
    /// current room is cleared if it was this one.
    pub fn leave_room(&mut self, room_id: u64) -> (r: Option<Room>)
        requires
            old(self).wf(),
        ensures
            final(self).wf(),
            final(self).spec_fkey() == old(self).spec_fkey(),
            final(self).spec_user_id() == old(self).spec_user_id(),
            match r {
                Some(room) => {
                    &&& old(self).spec_rooms().contains_key(room_id)
                    &&& old(self).spec_rooms()[room_id] == room
                    &&& final(self).spec_rooms() == old(self).spec_rooms().remove(room_id)
                    &&& final(self).spec_current() == if old(self).spec_current() == Some(room_id) {
                        None
                    } else {
                        old(self).spec_current()
                    }
                },
                None => !old(self).spec_rooms().contains_key(room_id) && *final(self) == *old(self),
            },
    {
        if !self.rooms.contains_key(&room_id) {
            return None;
        }
        let room = self.rooms.remove(&room_id);
        if self.current_room == Some(room_id) {
            self.current_room = None;
        }
        assert forall|k: u64| #[trigger] self.spec_rooms().contains_key(k) implies self.spec_rooms()[k].spec_id() == k by {
            assert(old(self).spec_rooms().contains_key(k));
        }
        room
    }

    /// The joined room `id`, if any.
    pub fn get_room(&self, room_id: u64) -> (r: Option<&Room>)
        ensures
            match r {
                Some(room) => self.spec_rooms().contains_key(room_id) && self.spec_rooms()[room_id] == *room,
                None => !self.spec_rooms().contains_key(room_id),
            },
    {
        self.rooms.get(&room_id)
    }

    /// The joined rooms, each once, in no particular order.
    pub fn get_rooms(&self) -> (r: Vec<&Room>)
        requires
            self.wf(),
        ensures
            r@.len() == self.spec_rooms().dom().len(),
            forall|i: int|
                0 <= i < r@.len() ==> self.spec_rooms().contains_key(#[trigger] r@[i].spec_id())
                    && self.spec_rooms()[r@[i].spec_id()] == *r@[i],
            forall|i: int, j: int| 0 <= i < j < r@.len() ==> (#[trigger] r@[i]).spec_id() != (#[trigger] r@[j]).spec_id(),
    {
        let mut out: Vec<&Room> = Vec::new();
        let ghost ids = self.rooms.keys().remaining().map_values(|x: &u64| *x);
        let ghost mut n: int = 0;
        proof {
            assert(ids.to_set() =~= self.rooms@.dom()) by {
                assert(ids =~= self.rooms.keys().remaining().unref());
            }
        }
        for k in it: self.rooms.keys()
            invariant
                self.wf(),
                n == it.index(),
                ids == it.seq().map_values(|x: &u64| *x),
                ids.no_duplicates(),
                ids.to_set() == self.rooms@.dom(),
                out@.len() == n,
                forall|i: int| 0 <= i < n ==> (#[trigger] out@[i]).spec_id() == ids[i] && self.rooms@[ids[i]] == *out@[i],
        {
            assert(ids.to_set().contains(ids[n]));
            assert(ids[n] == *k);
            assert(self.spec_rooms().contains_key(ids[n]));
            assert(self.rooms@[ids[n]].spec_id() == ids[n]);
            let ghost before = out@;
            match self.rooms.get(k) {
                Some(room) => {
                    out.push(room);
                    assert(out@[n] == room);
                    assert(forall|i: int| 0 <= i < n ==> out@[i] == before[i]);
                },
                None => {},
            }
            proof {
                n = n + 1;
            }
        }
        proof {
            ids.unique_seq_to_set();
        }
        out
    }

    /// Makes the room `id` the current one.
    pub fn set_current_room(&mut self, room_id: u64)
        requires
            old(self).wf(),
        ensures
            final(self).wf(),
            final(self).spec_current() == Some(room_id),
            final(self).spec_fkey() == old(self).spec_fkey(),
            final(self).spec_user_id() == old(self).spec_user_id(),
            final(self).spec_rooms() == old(self).spec_rooms(),
    {
        self.current_room = Some(room_id);
        assert(self.spec_rooms() == old(self).spec_rooms());
    }

    /// The id of the current room, if one is set.
    pub fn current_room_id(&self) -> (r: Option<u64>)
        ensures
            r == self.spec_current(),
    {
        self.current_room
    }

    /// The current room, if one is set and joined.
    pub fn current_room(&self) -> (r: Option<&Room>)
        ensures
            match self.spec_current() {
                Some(id) => match r {
                    Some(room) => self.spec_rooms().contains_key(id) && self.spec_rooms()[id] == *room,
                    None => !self.spec_rooms().contains_key(id),
                },
                None => r is None,
            },
    {
        match self.current_room {
            Some(id) => self.get_room(id),
            None => None,
        }
    }

    /// Hands an event of the stream to the room `id`'s buffer, as
    /// `Room::apply_event` does; `None` if that room is not joined.
    pub fn apply_event(&mut self, room_id: u64, event: ChatEventType) -> (r: Option<Result<(), SeError>>)
        requires
            old(self).wf(),
        ensures
            final(self).wf(),
            final(self).spec_fkey() == old(self).spec_fkey(),
            final(self).spec_user_id() == old(self).spec_user_id(),
            final(self).spec_current() == old(self).spec_current(),
            match r {
                None => !old(self).spec_rooms().contains_key(room_id) && *final(self) == *old(self),
                Some(res) => {
                    let before = old(self).spec_rooms()[room_id];
                    let after = final(self).spec_rooms()[room_id];
                    &&& old(self).spec_rooms().contains_key(room_id)
                    &&& final(self).spec_rooms() == old(self).spec_rooms().insert(room_id, after)
                    &&& after.spec_id() == room_id
                    &&& after.spec_fkey() == before.spec_fkey()
                    &&& after.spec_user_id() == before.spec_user_id()
                    &&& match message_of(event) {
                        Some(m) => res is Ok && after.spec_messages() == with_arrival(before.spec_messages(), m),
                        None => res == Err::<(), SeError>(SeError::ExpectedPostedEvent(event))
                            && after.spec_messages() == before.spec_messages(),
                    }
                },
            },
    {
        if !self.rooms.contains_key(&room_id) {
            return None;
        }
        match self.rooms.remove(&room_id) {
            Some(mut room) => {
                let res = room.apply_event(event);
                self.rooms.insert(room_id, room);
                assert(self.rooms@ =~= old(self).rooms@.insert(room_id, room));
                assert forall|k: u64| #[trigger] self.spec_rooms().contains_key(k) implies self.spec_rooms()[k].spec_id() == k by {
                    if k != room_id {
                        assert(old(self).spec_rooms().contains_key(k));
                    }
                }
                Some(res)
            },
            None => None,
        }
    }

    /// Hands the outcome of a history request to the room `id`, as
    /// `Room::apply_history` does; `None` if that room is not joined.
    pub fn apply_history(&mut self, room_id: u64, outcome: HttpOutcome) -> (r: Option<Result<(), SeError>>)
        requires
            old(self).wf(),
        ensures
            final(self).wf(),
            final(self).spec_fkey() == old(self).spec_fkey(),
            final(self).spec_user_id() == old(self).spec_user_id(),
            final(self).spec_current() == old(self).spec_current(),
            match r {
                None => !old(self).spec_rooms().contains_key(room_id) && *final(self) == *old(self),
                Some(res) => {
                    &&& old(self).spec_rooms().contains_key(room_id)
                    &&& final(self).spec_rooms() == old(self).spec_rooms().insert(
                        room_id,
                        final(self).spec_rooms()[room_id],
                    )
                    &&& history_applied(old(self).spec_rooms()[room_id], outcome, final(self).spec_rooms()[room_id], res)
                },
            },
    {
        if !self.rooms.contains_key(&room_id) {
            return None;
        }
        match self.rooms.remove(&room_id) {
            Some(mut room) => {
                let res = room.apply_history(outcome);
                self.rooms.insert(room_id, room);
                assert(self.rooms@ =~= old(self).rooms@.insert(room_id, room));
                assert forall|k: u64| #[trigger] self.spec_rooms().contains_key(k) implies self.spec_rooms()[k].spec_id() == k by {
                    if k != room_id {
                        assert(old(self).spec_rooms().contains_key(k));
                    }
                }
                Some(res)
            },
            None => None,
        }
    }
}

} // verus!
