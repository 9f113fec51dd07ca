use vstd::prelude::*;
use crate::error::{ErrorKind, Result, err_of};
use crate::keyed::{entry_of, has_key, keys_unique, lemma_entry_at, lemma_push, lemma_remove, lemma_update};
use crate::models::Room;

verus! {

/// A room's key: its id.
pub open spec fn room_key() -> spec_fn(Room) -> Seq<char> {
    |r: Room| r.id@
}

/// Whether some room in `s` has id `id`.
pub open spec fn has_room(s: Seq<Room>, id: Seq<char>) -> bool {
    has_key(s, room_key(), id)
}

/// The room with id `id` in `s` (meaningful where `has_room`).
pub open spec fn room_of(s: Seq<Room>, id: Seq<char>) -> Room {
    entry_of(s, room_key(), id)
}

/// No two rooms share an id.
pub open spec fn rooms_unique(s: Seq<Room>) -> bool {
    keys_unique(s, room_key())
}

pub proof fn lemma_room_at(s: Seq<Room>, i: int)
    requires
        rooms_unique(s),
        0 <= i < s.len(),
    ensures
        has_room(s, s[i].id@),
        room_of(s, s[i].id@) == s[i],
{
    lemma_entry_at(s, room_key(), i);
}

pub proof fn lemma_room_push(s: Seq<Room>, m: Room)
    requires
        rooms_unique(s),
        !has_room(s, m.id@),
    ensures
        rooms_unique(s.push(m)),
        forall|k: Seq<char>|
            #![trigger has_room(s.push(m), k)]
            has_room(s.push(m), k) == (has_room(s, k) || k == m.id@),
        forall|k: Seq<char>| has_room(s, k) ==> #[trigger] room_of(s.push(m), k) == room_of(s, k),
        room_of(s.push(m), m.id@) == m,
{
    lemma_push(s, room_key(), m);
}

proof fn lemma_room_remove(s: Seq<Room>, i: int)
    requires
        rooms_unique(s),
        0 <= i < s.len(),
    ensures
        rooms_unique(s.remove(i)),
        !has_room(s.remove(i), s[i].id@),
        forall|k: Seq<char>| k != s[i].id@ ==> #[trigger] has_room(s.remove(i), k) == has_room(s, k),
        forall|k: Seq<char>|
            k != s[i].id@ && has_room(s, k) ==> #[trigger] room_of(s.remove(i), k) == room_of(s, k),
{
    lemma_remove(s, room_key(), i);
}

/// The stored rooms, keyed by id.
pub struct RoomService {
    rooms: Vec<Room>,
}

impl View for RoomService {
    type V = Seq<Room>;

    closed spec fn view(&self) -> Seq<Room> {
        self.rooms@
    }
}

impl RoomService {
    pub open spec fn wf(&self) -> bool {
        rooms_unique(self@)
    }

    pub fn new() -> (r: RoomService)
        ensures
            r.wf(),
            r@ == Seq::<Room>::empty(),
    {
        RoomService { rooms: Vec::new() }
    }

    /// The position of room `room_id`, if stored.
    fn position(&self, room_id: &String) -> (r: Option<usize>)
        requires
            self.wf(),
        ensures
            r.is_none() == !has_room(self@, room_id@),
            r.is_some() ==> r.unwrap() < self@.len() && self@[r.unwrap() as int].id@ == room_id@,
    {
        let mut i: usize = 0;
        while i < self.rooms.len()
            invariant
                i <= self.rooms@.len(),
                forall|j: int| 0 <= j < i ==> (#[trigger] self.rooms@[j]).id@ != room_id@,
            decreases self.rooms.len() - i,
        {
            if self.rooms[i].id == *room_id {
                return Some(i);
            }
            i = i + 1;
        }
        None
    }

    /// Stores a room; its id must be new.
    pub fn create_room(&mut self, room: &Room) -> (r: Result<Room>)
        requires
            old(self).wf(),
        ensures
            final(self).wf(),
            r.is_ok() == !has_room(old(self)@, room.id@),
            r.is_ok() ==> final(self)@ == old(self)@.push(*room) && r.unwrap() == *room,
            r.is_err() ==> final(self)@ == old(self)@ && r.unwrap_err().0 == ErrorKind::DuplicateKey,
    {
        match self.position(&room.id) {
            Some(_) => Err(err_of(ErrorKind::DuplicateKey)),
            None => {
                proof {
                    lemma_room_push(self@, *room);
                }
                self.rooms.push(room.duplicate());
                Ok(room.duplicate())
            },
        }
    }

    /// The room with the given id.
    pub fn get_room(&self, room_id: &str) -> (r: Result<Room>)
        requires
            self.wf(),
        ensures
            r.is_ok() == has_room(self@, room_id@),
            r.is_ok() ==> r.unwrap() == room_of(self@, room_id@),
            r.is_err() ==> r.unwrap_err().0 == ErrorKind::RoomNotFound,
    {
        let id = room_id.to_owned();
        match self.position(&id) {
            Some(i) => {
                proof {
                    lemma_room_at(self@, i as int);
                }
                Ok(self.rooms[i].duplicate())
            },
            None => Err(err_of(ErrorKind::RoomNotFound)),
        }
    }

    /// Renames the room; renaming an absent room changes nothing.
    pub fn update_room(&mut self, room_id: &str, room_name: &str) -> (r: Result<()>)
        requires
            old(self).wf(),
        ensures
            final(self).wf(),
            r.is_ok(),
            forall|k: Seq<char>| #[trigger] has_room(final(self)@, k) == has_room(old(self)@, k),
            forall|k: Seq<char>| k != room_id@ && has_room(old(self)@, k)
                ==> #[trigger] room_of(final(self)@, k) == room_of(old(self)@, k),
            has_room(old(self)@, room_id@) ==> room_of(final(self)@, room_id@).id@ == room_id@
                && room_of(final(self)@, room_id@).name@ == room_name@,
    {
        let id = room_id.to_owned();
        match self.position(&id) {
            Some(i) => {
                let renamed = Room { id, name: room_name.to_owned() };
                proof {
                    lemma_update(self@, room_key(), i as int, renamed);
                }
                self.rooms.set(i, renamed);
            },
            None => {},
        }
        Ok(())
    }

    /// Deletes the room; deleting an absent room is no error.
    pub fn delete_room(&mut self, room_id: &str) -> (r: Result<()>)
        requires
            old(self).wf(),
        ensures
            final(self).wf(),
            r.is_ok(),
            !has_room(final(self)@, room_id@),
            forall|k: Seq<char>| k != room_id@ ==> #[trigger] has_room(final(self)@, k) == has_room(old(self)@, k),
            forall|k: Seq<char>| k != room_id@ && has_room(old(self)@, k)
                ==> #[trigger] room_of(final(self)@, k) == room_of(old(self)@, k),
    {
        let id = room_id.to_owned();
        match self.position(&id) {
            Some(i) => {
                proof {
                    lemma_room_remove(self@, i as int);
                }
                self.rooms.remove(i);
            },
            None => {},
        }
        Ok(())
    }

    /// Every stored room.
    pub fn get_rooms(&self) -> (r: Result<Vec<Room>>)
        ensures
            r.is_ok(),
            r.is_ok() ==> r.unwrap()@ == self@,
    {
        let mut out: Vec<Room> = Vec::new();
        let mut i: usize = 0;
        while i < self.rooms.len()
            invariant
                i <= self.rooms@.len(),
                out@ == self.rooms@.subrange(0, i as int),
            decreases self.rooms.len() - i,
        {
            out.push(self.rooms[i].duplicate());
            i = i + 1;
        }
        assert(out@ =~= self.rooms@);
        Ok(out)
    }
}

} // verus!
