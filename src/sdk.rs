use vstd::prelude::*;
use crate::error::{ErrorKind, Result, err_of};
use crate::identity::{NoiseKeyService, has_identity, identity_of, secret_decodes};
use crate::models::{ConnectionData, NoiseModel, Room, RoomOption, RustSDKOptions};
use crate::room_service::{RoomService, has_room, room_of};
use crate::keyed::{has_key, keys_unique, lemma_push, lemma_remove};
use crate::models::copy_bytes;

verus! {

/// Whether the text parses as a multi-address.
pub uninterp spec fn multiaddr_parses(s: Seq<char>) -> bool;

/// Relies on multiaddr's `FromStr` for `Multiaddr` (re-exported by libp2p):
/// whether the text parses.
#[verifier::external_body]
fn parses_as_multiaddr(s: &String) -> (r: bool)
    ensures
        r == multiaddr_parses(s@),
{
    s.parse::<libp2p::Multiaddr>().is_ok()
}

/// Relies on uuid::Uuid::new_v4 and its hyphenated text form: a random id of
/// 36 characters.
#[verifier::external_body]
fn fresh_room_id() -> (r: String)
    ensures
        r@.len() == 36,
{
    uuid::Uuid::new_v4().to_string()
}

/// Where a room swarm listens for stream (TCP) traffic when the caller names
/// no address.
pub const DEFAULT_LISTEN_TCP: &'static str = "/ip4/0.0.0.0/tcp/4001";

/// Where a room swarm listens for datagram (QUIC) traffic when the caller
/// names no address.
pub const DEFAULT_LISTEN_QUIC: &'static str = "/ip4/0.0.0.0/udp/4001/quic-v1";

/// The views of a sequence of strings.
pub open spec fn texts(s: Seq<String>) -> Seq<Seq<char>> {
    s.map_values(|x: String| x@)
}

/// Whether every address of `s` parses.
pub open spec fn all_parse(s: Seq<String>) -> bool {
    forall|i: int| 0 <= i < s.len() ==> multiaddr_parses(#[trigger] s[i]@)
}

/// The addresses a room swarm listens on: those the caller gives, else one
/// default stream address and one default datagram address.
pub open spec fn listen_addresses(given: Seq<String>) -> Seq<Seq<char>> {
    if given.len() > 0 {
        texts(given)
    } else {
        seq![DEFAULT_LISTEN_TCP@, DEFAULT_LISTEN_QUIC@]
    }
}

/// The id a caller asked for: a present, non-empty id.
pub open spec fn requested_id(id: Option<String>) -> Option<Seq<char>> {
    match id {
        Some(x) => if x@.len() > 0 { Some(x@) } else { None },
        None => None,
    }
}

/// A registry entry's key: the room id it holds.
pub open spec fn swarm_key() -> spec_fn(String) -> Seq<char> {
    |x: String| x@
}

/// Whether some entry of `s` is the room `id`.
pub open spec fn has_swarm(s: Seq<String>, id: Seq<char>) -> bool {
    has_key(s, swarm_key(), id)
}

/// No room appears twice in `s`.
pub open spec fn swarms_unique(s: Seq<String>) -> bool {
    keys_unique(s, swarm_key())
}

proof fn lemma_swarm_push(s: Seq<String>, x: String)
    requires
        swarms_unique(s),
        !has_swarm(s, x@),
    ensures
        swarms_unique(s.push(x)),
        forall|k: Seq<char>| #[trigger] has_swarm(s.push(x), k) == (has_swarm(s, k) || k == x@),
{
    lemma_push(s, swarm_key(), x);
}

proof fn lemma_swarm_remove(s: Seq<String>, i: int)
    requires
        swarms_unique(s),
        0 <= i < s.len(),
    ensures
        swarms_unique(s.remove(i)),
        forall|k: Seq<char>| #[trigger] has_swarm(s.remove(i), k) == (has_swarm(s, k) && k != s[i]@),
{
    lemma_remove(s, swarm_key(), i);
}

/// Whether every text of `s` parses as a multi-address.
pub open spec fn all_texts_parse(s: Seq<Seq<char>>) -> bool {
    forall|i: int| 0 <= i < s.len() ==> multiaddr_parses(#[trigger] s[i])
}

/// Whether every address parses.
fn every_address_parses(v: &Vec<String>) -> (r: bool)
    ensures
        r == all_parse(v@),
        r == all_texts_parse(texts(v@)),
{
    let mut i: usize = 0;
    while i < v.len()
        invariant
            i <= v@.len(),
            forall|j: int| 0 <= j < i ==> multiaddr_parses(#[trigger] v@[j]@),
        decreases v.len() - i,
    {
        if !parses_as_multiaddr(&v[i]) {
            assert(texts(v@)[i as int] == v@[i as int]@);
            return false;
        }
        i = i + 1;
    }
    assert forall|j: int| 0 <= j < texts(v@).len() implies multiaddr_parses(#[trigger] texts(v@)[j]) by {
        assert(texts(v@)[j] == v@[j]@);
    }
    true
}

/// A copy of a vector of strings.
pub fn copy_strings(v: &Vec<String>) -> (r: Vec<String>)
    ensures
        r@ == v@,
{
    let mut r: Vec<String> = Vec::new();
    let mut i: usize = 0;
    while i < v.len()
        invariant
            i <= v@.len(),
            r@ == v@.subrange(0, i as int),
        decreases v.len() - i,
    {
        r.push(v[i].clone());
        i = i + 1;
    }
    assert(r@ =~= v@);
    r
}

/// Everything a host needs to launch a room's swarm.
#[derive(Debug)]
pub struct StartPlan {
    pub room: Room,
    /// The room's stored secret scalar; it decodes to the room's keypair.
    pub secret: Vec<u8>,
    pub listen_on: Vec<String>,
    pub dial: Vec<String>,
}

/// What `start_room` decided.
#[derive(Debug)]
pub enum StartAction {
    /// The room already has a swarm: nothing to do.
    AlreadyRunning,
    /// Build and launch the swarm as planned.
    Launch(StartPlan),
}

/// What `quit_room` decided.
#[derive(Debug, Clone, Copy, PartialEq, Eq, Structural)]
pub enum QuitAction {
    /// The room had a swarm: send it the stop signal.
    SendStop,
    /// The room had no swarm: nothing to do.
    NotRunning,
}

/// The node manager: stored rooms and identities, the rooms whose swarm
/// runs, and the registered listeners.
pub struct RustSDK<L> {
    options: RustSDKOptions,
    room_service: RoomService,
    noise_key_service: NoiseKeyService,
    callbacks: Vec<L>,
    room_swarms: Vec<String>,
}

impl<L> RustSDK<L> {
    pub closed spec fn spec_options(&self) -> RustSDKOptions {
        self.options
    }

    pub closed spec fn rooms(&self) -> Seq<Room> {
        self.room_service@
    }

    pub closed spec fn identities(&self) -> Seq<NoiseModel> {
        self.noise_key_service@
    }

    /// The rooms whose swarm is starting or running.
    pub closed spec fn swarms(&self) -> Seq<String> {
        self.room_swarms@
    }

    pub closed spec fn listeners(&self) -> Seq<L> {
        self.callbacks@
    }

    pub closed spec fn wf(&self) -> bool {
        &&& self.room_service.wf()
        &&& self.noise_key_service.wf()
        &&& swarms_unique(self.room_swarms@)
    }

    pub fn new(options: RustSDKOptions) -> (r: RustSDK<L>)
        ensures
            r.wf(),
            r.rooms() == Seq::<Room>::empty(),
            r.identities() == Seq::<NoiseModel>::empty(),
            r.swarms() == Seq::<String>::empty(),
            r.listeners() == Seq::<L>::empty(),
            r.spec_options() == options,
    {
        RustSDK {
            options,
            room_service: RoomService::new(),
            noise_key_service: NoiseKeyService::new(),
            callbacks: Vec::new(),
            room_swarms: Vec::new(),
        }
    }

    pub fn options(&self) -> (r: &RustSDKOptions)
        ensures
            *r == self.spec_options(),
    {
        &self.options
    }

    /// What holds after creating room `room_id` named `name` from `old`.
    pub open spec fn create_post(old: Self, new: Self, room_id: Seq<char>, name: Seq<char>, r: Result<Room>) -> bool {
        &&& new.wf()
        &&& new.swarms() == old.swarms()
        &&& new.listeners() == old.listeners()
        &&& r.is_ok() == (!has_identity(old.identities(), room_id) && !has_room(old.rooms(), room_id))
        &&& r.is_ok() ==> {
            &&& r.unwrap().id@ == room_id
            &&& r.unwrap().name@ == name
            &&& new.rooms() == old.rooms().push(r.unwrap())
            &&& has_room(new.rooms(), room_id)
            &&& room_of(new.rooms(), room_id) == r.unwrap()
            &&& has_identity(new.identities(), room_id)
            &&& identity_of(new.identities(), room_id) == new.identities().last()
            &&& new.identities().drop_last() == old.identities()
            &&& new.identities().len() == old.identities().len() + 1
            &&& new.identities().last().id@ == room_id
            &&& secret_decodes(new.identities().last().private@)
        }
        &&& r.is_err() ==> {
            &&& r.unwrap_err().0 == ErrorKind::DuplicateKey
            &&& new.rooms() == old.rooms()
            &&& new.identities() == old.identities()
        }
    }

    /// Creates a room with the given id: its identity, then its record. An id
    /// already used by a room or an identity is refused before anything is
    /// stored.
    pub fn create_room_with_id(&mut self, room_id: String, name: String) -> (r: Result<Room>)
        requires
            old(self).wf(),
        ensures
            Self::create_post(*old(self), *final(self), room_id@, name@, r),
    {
        match self.room_service.get_room(room_id.as_str()) {
            Ok(_) => return Err(err_of(ErrorKind::DuplicateKey)),
            Err(_) => {},
        }
        match self.noise_key_service.create_key(room_id.as_str()) {
            Ok(()) => {},
            Err(e) => return Err(e),
        }
        let room = Room { id: room_id, name };
        proof {
            crate::identity::lemma_identity_at(self.identities(), self.identities().len() - 1);
            if !has_room(self.rooms(), room.id@) {
                crate::room_service::lemma_room_push(self.rooms(), room);
            }
        }
        self.room_service.create_room(&room)
    }

    /// Creates a room: with the caller's id where one is given and not empty,
    /// else with a fresh random one.
    pub fn create_room(&mut self, options: RoomOption) -> (r: Result<Room>)
        requires
            old(self).wf(),
        ensures
            requested_id(options.id) is Some ==> Self::create_post(
                *old(self), *final(self), requested_id(options.id)->0, options.name@, r),
            requested_id(options.id) is None ==> exists|id: Seq<char>|
                id.len() == 36 && Self::create_post(*old(self), *final(self), id, options.name@, r),
    {
        let room_id = match options.id {
            Some(x) => if x.as_str().is_empty() { fresh_room_id() } else { x },
            None => fresh_room_id(),
        };
        let ghost id = room_id@;
        let r = self.create_room_with_id(room_id, options.name);
        assert(Self::create_post(*old(self), *final(self), id, options.name@, r));
        r
    }

    /// What holds of `get_room` on `s`.
    pub open spec fn get_room_post(s: Self, room_id: Seq<char>, r: Result<Room>) -> bool {
        &&& r.is_ok() == has_room(s.rooms(), room_id)
        &&& r.is_ok() ==> r.unwrap() == room_of(s.rooms(), room_id)
        &&& r.is_err() ==> r.unwrap_err().0 == ErrorKind::RoomNotFound
    }

    pub fn get_room(&self, room_id: &str) -> (r: Result<Room>)
        requires
            self.wf(),
        ensures
            Self::get_room_post(*self, room_id@, r),
    {
        self.room_service.get_room(room_id)
    }

    pub fn get_rooms(&self) -> (r: Result<Vec<Room>>)
        requires
            self.wf(),
        ensures
            r.is_ok(),
            r.is_ok() ==> r.unwrap()@ == self.rooms(),
            r.is_ok() ==> crate::room_service::rooms_unique(r.unwrap()@),
    {
        self.room_service.get_rooms()
    }

    /// Renames a stored room.
    pub fn update_room(&mut self, room_id: &str, room_name: &str) -> (r: Result<()>)
        requires
            old(self).wf(),
        ensures
            final(self).wf(),
            r.is_ok(),
            final(self).identities() == old(self).identities(),
            final(self).swarms() == old(self).swarms(),
            final(self).listeners() == old(self).listeners(),
            forall|k: Seq<char>| #[trigger] has_room(final(self).rooms(), k) == has_room(old(self).rooms(), k),
            forall|k: Seq<char>| k != room_id@ && has_room(old(self).rooms(), k)
                ==> #[trigger] room_of(final(self).rooms(), k) == room_of(old(self).rooms(), k),
            has_room(old(self).rooms(), room_id@) ==> room_of(final(self).rooms(), room_id@).name@ == room_name@
                && room_of(final(self).rooms(), room_id@).id@ == room_id@,
    {
        self.room_service.update_room(room_id, room_name)
    }

    /// What holds after removing room `room_id` from `old`.
    pub open spec fn remove_post(old: Self, new: Self, room_id: Seq<char>, r: Result<()>) -> bool {
        &&& new.wf()
        &&& r.is_ok()
        &&& new.swarms() == old.swarms()
        &&& new.listeners() == old.listeners()
        &&& !has_room(new.rooms(), room_id)
        &&& !has_identity(new.identities(), room_id)
        &&& forall|k: Seq<char>| k != room_id ==> #[trigger] has_room(new.rooms(), k) == has_room(old.rooms(), k)
        &&& forall|k: Seq<char>| k != room_id && has_room(old.rooms(), k)
                ==> #[trigger] room_of(new.rooms(), k) == room_of(old.rooms(), k)
        &&& forall|k: Seq<char>| k != room_id ==> #[trigger] has_identity(new.identities(), k) == has_identity(old.identities(), k)
        &&& forall|k: Seq<char>| k != room_id && has_identity(old.identities(), k)
                ==> #[trigger] identity_of(new.identities(), k) == identity_of(old.identities(), k)
    }

    /// Deletes the room's record and identity, whether or not its swarm runs.
    pub fn remove_room(&mut self, room_id: &str) -> (r: Result<()>)
        requires
            old(self).wf(),
        ensures
            Self::remove_post(*old(self), *final(self), room_id@, r),
    {
        match self.room_service.delete_room(room_id) {
            Ok(()) => {},
            Err(e) => return Err(e),
        }
        self.noise_key_service.delete_key(room_id)
    }

    /// Removes every stored room with its identity.
    pub fn clean_up(&mut self) -> (r: Result<()>)
        requires
            old(self).wf(),
        ensures
            final(self).wf(),
            r.is_ok(),
            final(self).rooms().len() == 0,
            forall|k: Seq<char>| has_room(old(self).rooms(), k) ==> !has_identity(final(self).identities(), k),
            forall|k: Seq<char>| !has_room(old(self).rooms(), k)
                ==> #[trigger] has_identity(final(self).identities(), k) == has_identity(old(self).identities(), k),
            forall|k: Seq<char>| !has_room(old(self).rooms(), k) && has_identity(old(self).identities(), k)
                ==> #[trigger] identity_of(final(self).identities(), k) == identity_of(old(self).identities(), k),
            final(self).swarms() == old(self).swarms(),
            final(self).listeners() == old(self).listeners(),
    {
        let rooms = match self.room_service.get_rooms() {
            Ok(v) => v,
            Err(e) => return Err(e),
        };
        let ghost first = self.rooms();
        let mut i: usize = 0;
        while i < rooms.len()
            invariant
                self.wf(),
                rooms@ == first,
                crate::room_service::rooms_unique(first),
                i <= rooms@.len(),
                forall|k: Seq<char>| #[trigger] has_room(self.rooms(), k) == (exists|j: int| i <= j < rooms@.len() && rooms@[j].id@ == k),
                forall|k: Seq<char>| (exists|j: int| 0 <= j < i && rooms@[j].id@ == k) ==> !has_identity(self.identities(), k),
                forall|k: Seq<char>| !has_room(first, k)
                    ==> #[trigger] has_identity(self.identities(), k) == has_identity(old(self).identities(), k),
                forall|k: Seq<char>| !has_room(first, k) && has_identity(old(self).identities(), k)
                    ==> #[trigger] identity_of(self.identities(), k) == identity_of(old(self).identities(), k),
                self.swarms() == old(self).swarms(),
                self.listeners() == old(self).listeners(),
            decreases rooms.len() - i,
        {
            let ghost before = *self;
            let _ = self.remove_room(rooms[i].id.as_str());
            proof {
                let id = rooms@[i as int].id@;
                assert forall|k: Seq<char>| #[trigger] has_room(self.rooms(), k) == (exists|j: int| i + 1 <= j < rooms@.len() && rooms@[j].id@ == k) by {
                    if k != id {
                        if has_room(before.rooms(), k) {
                            let j = choose|j: int| i <= j < rooms@.len() && rooms@[j].id@ == k;
                            assert(j != i);
                        }
                        if exists|j: int| i + 1 <= j < rooms@.len() && rooms@[j].id@ == k {
                            let j = choose|j: int| i + 1 <= j < rooms@.len() && rooms@[j].id@ == k;
                            assert(i <= j < rooms@.len() && rooms@[j].id@ == k);
                        }
                    } else {
                        if exists|j: int| i + 1 <= j < rooms@.len() && rooms@[j].id@ == k {
                            let j = choose|j: int| i + 1 <= j < rooms@.len() && rooms@[j].id@ == k;
                            assert(rooms@[j].id@ == rooms@[i as int].id@);
                        }
                    }
                }
                assert forall|k: Seq<char>| (exists|j: int| 0 <= j < i + 1 && rooms@[j].id@ == k) implies !has_identity(self.identities(), k) by {
                    if k != id {
                        let j = choose|j: int| 0 <= j < i + 1 && rooms@[j].id@ == k;
                        assert(j != i);
                        assert(exists|j: int| 0 <= j < i && rooms@[j].id@ == k);
                    }
                }
                assert forall|k: Seq<char>| !has_room(first, k) implies #[trigger] has_identity(self.identities(), k) == has_identity(old(self).identities(), k) by {
                    assert(0 <= i < first.len() && first[i as int].id@ == id);
                    if k == id {
                        assert(has_room(first, id));
                    }
                }
                assert forall|k: Seq<char>| !has_room(first, k) && has_identity(old(self).identities(), k) implies #[trigger] identity_of(self.identities(), k) == identity_of(old(self).identities(), k) by {
                    assert(0 <= i < first.len() && first[i as int].id@ == id);
                    if k == id {
                        assert(has_room(first, id));
                    }
                    assert(has_identity(before.identities(), k));
                }
            }
            i = i + 1;
        }
        proof {
            if self.rooms().len() > 0 {
                let k = self.rooms()[0].id@;
                assert(has_room(self.rooms(), k));
            }
            assert forall|k: Seq<char>| has_room(old(self).rooms(), k) implies !has_identity(self.identities(), k) by {
                let j = choose|j: int| 0 <= j < first.len() && (#[trigger] first[j]).id@ == k;
                assert(0 <= j < i && rooms@[j].id@ == k);
            }
        }
        Ok(())
    }

    /// Whether the room has a swarm starting or running.
    pub fn is_running(&self, room_id: &String) -> (r: bool)
        ensures
            r == has_swarm(self.swarms(), room_id@),
    {
        self.swarm_position(room_id).is_some()
    }

    fn swarm_position(&self, room_id: &String) -> (r: Option<usize>)
        ensures
            r.is_none() == !has_swarm(self.swarms(), room_id@),
            r.is_some() ==> r.unwrap() < self.swarms().len() && self.swarms()[r.unwrap() as int]@ == room_id@,
    {
        let mut i: usize = 0;
        while i < self.room_swarms.len()
            invariant
                i <= self.room_swarms@.len(),
                forall|j: int| 0 <= j < i ==> (#[trigger] self.room_swarms@[j])@ != room_id@,
            decreases self.room_swarms.len() - i,
        {
            if self.room_swarms[i] == *room_id {
                return Some(i);
            }
            i = i + 1;
        }
        None
    }


    /// What holds after `start_room` on `old` with `data`.
    pub open spec fn start_post(old: Self, new: Self, data: ConnectionData, r: Result<StartAction>) -> bool {
        let id = data.room_id@;
        &&& new.wf()
        &&& new.rooms() == old.rooms()
        &&& new.identities() == old.identities()
        &&& new.listeners() == old.listeners()
        &&& has_swarm(old.swarms(), id) ==> {
            &&& r.is_ok()
            &&& r.unwrap() is AlreadyRunning
            &&& new.swarms() == old.swarms()
        }
        &&& !has_swarm(old.swarms(), id) ==> {
            &&& r.is_ok() == (has_room(old.rooms(), id) && has_identity(old.identities(), id)
                && secret_decodes(identity_of(old.identities(), id).private@)
                && all_texts_parse(listen_addresses(data.room_listen_on@))
                && all_parse(data.room_multi_address@))
            &&& r.is_ok() ==> {
                &&& r.unwrap() is Launch
                &&& r.unwrap()->Launch_0.room == room_of(old.rooms(), id)
                &&& r.unwrap()->Launch_0.secret@ == identity_of(old.identities(), id).private@
                &&& texts(r.unwrap()->Launch_0.listen_on@) == listen_addresses(data.room_listen_on@)
                &&& r.unwrap()->Launch_0.dial@ == data.room_multi_address@
                &&& new.swarms() == old.swarms().push(data.room_id)
            }
            &&& r.is_err() ==> {
                &&& new.swarms() == old.swarms()
                &&& !has_room(old.rooms(), id) ==> r.unwrap_err().0 == ErrorKind::RoomNotFound
                &&& has_room(old.rooms(), id) && !has_identity(old.identities(), id)
                    ==> r.unwrap_err().0 == ErrorKind::KeyNotFound
                &&& has_room(old.rooms(), id) && has_identity(old.identities(), id)
                    && !secret_decodes(identity_of(old.identities(), id).private@)
                    ==> r.unwrap_err().0 == ErrorKind::InvalidKey
                &&& has_room(old.rooms(), id) && has_identity(old.identities(), id)
                    && secret_decodes(identity_of(old.identities(), id).private@)
                    ==> r.unwrap_err().0 == ErrorKind::InvalidAddress
            }
        }
    }

    /// Decides how to start a room's swarm. A room whose swarm is starting
    /// or running is left as it is; otherwise the room, its keypair and
    /// every address are checked, and the room is marked as starting.
    pub fn start_room(&mut self, data: &ConnectionData) -> (r: Result<StartAction>)
        requires
            old(self).wf(),
        ensures
            Self::start_post(*old(self), *final(self), *data, r),
    {
        if self.is_running(&data.room_id) {
            return Ok(StartAction::AlreadyRunning);
        }
        let room = match self.room_service.get_room(data.room_id.as_str()) {
            Ok(r) => r,
            Err(e) => return Err(e),
        };
        let entity = match self.noise_key_service.get_entity(data.room_id.as_str()) {
            Ok(m) => m,
            Err(e) => return Err(e),
        };
        match crate::identity::decode_secret(&entity.private) {
            Ok(_) => {},
            Err(e) => return Err(e),
        }
        let secret = copy_bytes(&entity.private);
        let listen_on = if data.room_listen_on.len() > 0 {
            copy_strings(&data.room_listen_on)
        } else {
            let v: Vec<String> = vec![DEFAULT_LISTEN_TCP.to_owned(), DEFAULT_LISTEN_QUIC.to_owned()];
            v
        };
        proof {
            if data.room_listen_on@.len() == 0 {
                assert(texts(listen_on@) =~= seq![DEFAULT_LISTEN_TCP@, DEFAULT_LISTEN_QUIC@]);
            }
        }
        if !every_address_parses(&listen_on) || !every_address_parses(&data.room_multi_address) {
            return Err(err_of(ErrorKind::InvalidAddress));
        }
        let dial = copy_strings(&data.room_multi_address);
        proof {
            lemma_swarm_push(self.room_swarms@, data.room_id);
        }
        self.room_swarms.push(data.room_id.clone());
        Ok(StartAction::Launch(StartPlan { room, secret, listen_on, dial }))
    }

    /// Forgets a room whose swarm could not be launched.
    pub fn abandon_start(&mut self, room_id: &String)
        requires
            old(self).wf(),
        ensures
            final(self).wf(),
            final(self).rooms() == old(self).rooms(),
            final(self).identities() == old(self).identities(),
            final(self).listeners() == old(self).listeners(),
            forall|k: Seq<char>| #[trigger] has_swarm(final(self).swarms(), k)
                == (has_swarm(old(self).swarms(), k) && k != room_id@),
    {
        match self.swarm_position(room_id) {
            Some(i) => {
                proof {
                    lemma_swarm_remove(self.room_swarms@, i as int);
                }
                self.room_swarms.remove(i);
            },
            None => {},
        }
    }

    /// What holds after `quit_room` on `old`.
    pub open spec fn quit_post(old: Self, new: Self, room_id: Seq<char>, r: Result<QuitAction>) -> bool {
        &&& new.wf()
        &&& r.is_ok()
        &&& has_swarm(old.swarms(), room_id) ==> {
            &&& r.unwrap() == QuitAction::SendStop
            &&& new.rooms() == old.rooms()
            &&& new.identities() == old.identities()
            &&& new.listeners() == old.listeners()
            &&& forall|k: Seq<char>| #[trigger] has_swarm(new.swarms(), k) == (has_swarm(old.swarms(), k) && k != room_id)
        }
        &&& !has_swarm(old.swarms(), room_id) ==> {
            &&& r.unwrap() == QuitAction::NotRunning
            &&& new == old
        }
    }

    /// Decides how to quit a room: a running swarm is told to stop and
    /// forgotten; quitting a room without one changes nothing.
    pub fn quit_room(&mut self, room_id: &str) -> (r: Result<QuitAction>)
        requires
            old(self).wf(),
        ensures
            Self::quit_post(*old(self), *final(self), room_id@, r),
    {
        let id = room_id.to_owned();
        match self.swarm_position(&id) {
            Some(i) => {
                proof {
                    lemma_swarm_remove(self.room_swarms@, i as int);
                }
                self.room_swarms.remove(i);
                Ok(QuitAction::SendStop)
            },
            None => Ok(QuitAction::NotRunning),
        }
    }

    /// Adds a listener of application events, after those registered before.
    pub fn register_listener(&mut self, cb: L)
        ensures
            final(self).listeners() == old(self).listeners().push(cb),
            final(self).rooms() == old(self).rooms(),
            final(self).identities() == old(self).identities(),
            final(self).swarms() == old(self).swarms(),
            old(self).wf() ==> final(self).wf(),
    {
        self.callbacks.push(cb);
    }

    /// The listeners, in registration order.
    pub fn get_listeners(&self) -> (r: &Vec<L>)
        ensures
            r@ == self.listeners(),
    {
        &self.callbacks
    }

    /// Adds a room read from storage; its id must be new.
    pub fn load_room(&mut self, room: &Room) -> (r: Result<Room>)
        requires
            old(self).wf(),
        ensures
            final(self).wf(),
            r.is_ok() == !has_room(old(self).rooms(), room.id@),
            r.is_ok() ==> final(self).rooms() == old(self).rooms().push(*room),
            r.is_err() ==> final(self).rooms() == old(self).rooms() && r.unwrap_err().0 == ErrorKind::DuplicateKey,
            final(self).identities() == old(self).identities(),
            final(self).swarms() == old(self).swarms(),
            final(self).listeners() == old(self).listeners(),
    {
        self.room_service.create_room(room)
    }

    /// Adds an identity read from storage; its room must have none yet.
    pub fn load_identity(&mut self, entity: NoiseModel) -> (r: Result<()>)
        requires
            old(self).wf(),
        ensures
            final(self).wf(),
            r.is_ok() == !has_identity(old(self).identities(), entity.id@),
            r.is_ok() ==> final(self).identities() == old(self).identities().push(entity),
            r.is_err() ==> final(self).identities() == old(self).identities() && r.unwrap_err().0 == ErrorKind::DuplicateKey,
            final(self).rooms() == old(self).rooms(),
            final(self).swarms() == old(self).swarms(),
            final(self).listeners() == old(self).listeners(),
    {
        self.noise_key_service.insert_key(entity)
    }

    /// The stored identity of a room.
    pub fn get_identity(&self, room_id: &str) -> (r: Result<&NoiseModel>)
        requires
            self.wf(),
        ensures
            r.is_ok() == has_identity(self.identities(), room_id@),
            r.is_ok() ==> *r.unwrap() == identity_of(self.identities(), room_id@),
            r.is_err() ==> r.unwrap_err().0 == ErrorKind::KeyNotFound,
    {
        self.noise_key_service.get_entity(room_id)
    }
} // impl

/// A room created with an explicit id is found again by that id, with the
/// id and name it was created with.
pub proof fn law_created_room_is_found<L>(
    s0: RustSDK<L>,
    s1: RustSDK<L>,
    options: RoomOption,
    created: Result<Room>,
    found: Result<Room>,
)
    requires
        s0.wf(),
        requested_id(options.id) is Some,
        RustSDK::create_post(s0, s1, requested_id(options.id)->0, options.name@, created),
        created.is_ok(),
        RustSDK::get_room_post(s1, requested_id(options.id)->0, found),
    ensures
        found.is_ok(),
        found.unwrap().id@ == requested_id(options.id)->0,
        found.unwrap().name@ == options.name@,
{
}

/// Two rooms created one after the other get distinct ids.
pub proof fn law_created_ids_distinct<L>(
    s0: RustSDK<L>,
    s1: RustSDK<L>,
    s2: RustSDK<L>,
    id1: Seq<char>,
    name1: Seq<char>,
    r1: Result<Room>,
    id2: Seq<char>,
    name2: Seq<char>,
    r2: Result<Room>,
)
    requires
        s0.wf(),
        RustSDK::create_post(s0, s1, id1, name1, r1),
        RustSDK::create_post(s1, s2, id2, name2, r2),
        r1.is_ok(),
        r2.is_ok(),
    ensures
        r1.unwrap().id@ != r2.unwrap().id@,
{
    crate::room_service::lemma_room_push(s0.rooms(), r1.unwrap());
}

/// After a room is removed, looking it up reports it as not found.
pub proof fn law_removed_room_not_found<L>(
    s0: RustSDK<L>,
    s1: RustSDK<L>,
    room_id: Seq<char>,
    removed: Result<()>,
    found: Result<Room>,
)
    requires
        RustSDK::remove_post(s0, s1, room_id, removed),
        RustSDK::get_room_post(s1, room_id, found),
    ensures
        found.is_err(),
        found.unwrap_err().0 == ErrorKind::RoomNotFound,
{
}

/// Starting a room twice leaves it with exactly one swarm: the second start
/// changes nothing.
pub proof fn law_start_idempotent<L>(
    s0: RustSDK<L>,
    s1: RustSDK<L>,
    s2: RustSDK<L>,
    data: ConnectionData,
    r1: Result<StartAction>,
    r2: Result<StartAction>,
)
    requires
        s0.wf(),
        RustSDK::start_post(s0, s1, data, r1),
        RustSDK::start_post(s1, s2, data, r2),
        r1.is_ok(),
    ensures
        r2.is_ok(),
        r2.unwrap() is AlreadyRunning,
        s2.swarms() == s1.swarms(),
        exists|i: int| 0 <= i < s2.swarms().len() && s2.swarms()[i]@ == data.room_id@
            && forall|j: int| 0 <= j < s2.swarms().len() && j != i ==> (#[trigger] s2.swarms()[j])@ != data.room_id@,
{
    let id = data.room_id@;
    if !has_swarm(s0.swarms(), id) {
        lemma_swarm_push(s0.swarms(), data.room_id);
    }
    assert(has_swarm(s1.swarms(), id));
    let i = choose|i: int| 0 <= i < s1.swarms().len() && (#[trigger] s1.swarms()[i])@ == id;
    assert(0 <= i < s2.swarms().len() && s2.swarms()[i]@ == id);
}

/// Quitting a room without a running swarm changes nothing and reports it.
pub proof fn law_quit_absent_is_noop<L>(
    s0: RustSDK<L>,
    s1: RustSDK<L>,
    room_id: Seq<char>,
    r: Result<QuitAction>,
)
    requires
        RustSDK::quit_post(s0, s1, room_id, r),
        !has_swarm(s0.swarms(), room_id),
    ensures
        s1 == s0,
        r.is_ok(),
        r.unwrap() == QuitAction::NotRunning,
{
}

} // verus!
