use vstd::prelude::*;

verus! {

/// A room: an isolated peer-to-peer mesh, identified by its id.
#[derive(Debug)]
pub struct Room {
    pub id: String,
    pub name: String,
}

impl Room {
    pub fn new(id: String, name: String) -> (r: Room)
        ensures
            r.id == id,
            r.name == name,
    {
        Room { id, name }
    }

    pub fn get_id(&self) -> (r: &String)
        ensures
            *r == self.id,
    {
        &self.id
    }

    pub fn get_name(&self) -> (r: &String)
        ensures
            *r == self.name,
    {
        &self.name
    }

    pub fn id(&self) -> (r: &String)
        ensures
            *r == self.id,
    {
        &self.id
    }

    pub fn name(&self) -> (r: &String)
        ensures
            *r == self.name,
    {
        &self.name
    }

    /// A copy of the room, field for field.
    pub fn duplicate(&self) -> (r: Room)
        ensures
            r == *self,
    {
        Room { id: self.id.clone(), name: self.name.clone() }
    }
}

impl From<(String, String)> for Room {
    fn from(t: (String, String)) -> (r: Room)
        ensures
            r.id == t.0,
            r.name == t.1,
    {
        Room { id: t.0, name: t.1 }
    }
}

impl vstd::std_specs::convert::FromSpecImpl<(String, String)> for Room {
    open spec fn obeys_from_spec() -> bool {
        true
    }

    open spec fn from_spec(t: (String, String)) -> Room {
        Room { id: t.0, name: t.1 }
    }
}

/// What a caller gives to create a room: an optional id and a name.
#[derive(Debug)]
pub struct RoomOption {
    pub id: Option<String>,
    pub name: String,
}

impl RoomOption {
    pub fn new(id: Option<String>, name: String) -> (r: RoomOption)
        ensures
            r.id == id,
            r.name == name,
    {
        RoomOption { id, name }
    }
}

impl From<(Option<String>, String)> for RoomOption {
    fn from(t: (Option<String>, String)) -> (r: RoomOption)
        ensures
            r.id == t.0,
            r.name == t.1,
    {
        RoomOption { id: t.0, name: t.1 }
    }
}

impl vstd::std_specs::convert::FromSpecImpl<(Option<String>, String)> for RoomOption {
    open spec fn obeys_from_spec() -> bool {
        true
    }

    open spec fn from_spec(t: (Option<String>, String)) -> RoomOption {
        RoomOption { id: t.0, name: t.1 }
    }
}

/// A member of a room.
pub struct RoomMember {
    id: String,
    room_id: String,
}

impl RoomMember {
    pub closed spec fn spec_id(&self) -> String {
        self.id
    }

    pub closed spec fn spec_room_id(&self) -> String {
        self.room_id
    }

    pub fn new(id: String, room_id: String) -> (r: RoomMember)
        ensures
            r.spec_id() == id,
            r.spec_room_id() == room_id,
    {
        RoomMember { id, room_id }
    }

    pub fn get_id(&self) -> (r: &String)
        ensures
            *r == self.spec_id(),
    {
        &self.id
    }

    pub fn get_room_id(&self) -> (r: &String)
        ensures
            *r == self.spec_room_id(),
    {
        &self.room_id
    }
}

/// A room id, as a host hands it over.
#[derive(Debug)]
pub struct RoomId {
    pub id: String,
}

impl From<String> for RoomId {
    fn from(id: String) -> (r: RoomId)
        ensures
            r.id == id,
    {
        RoomId { id }
    }
}

impl vstd::std_specs::convert::FromSpecImpl<String> for RoomId {
    open spec fn obeys_from_spec() -> bool {
        true
    }

    open spec fn from_spec(id: String) -> RoomId {
        RoomId { id }
    }
}

/// How to start a room's swarm: the room, the peers to dial and the
/// addresses to listen on (multi-addresses in text form).
#[derive(Debug)]
pub struct ConnectionData {
    pub room_id: String,
    pub room_multi_address: Vec<String>,
    pub room_listen_on: Vec<String>,
}

/// The payload of an application event handed to listeners.
#[derive(Debug)]
pub struct CallbackPayload {
    pub data: String,
}

impl From<String> for CallbackPayload {
    fn from(data: String) -> (r: CallbackPayload)
        ensures
            r.data == data,
    {
        CallbackPayload { data }
    }
}

impl vstd::std_specs::convert::FromSpecImpl<String> for CallbackPayload {
    open spec fn obeys_from_spec() -> bool {
        true
    }

    open spec fn from_spec(data: String) -> CallbackPayload {
        CallbackPayload { data }
    }
}

/// Options of a node manager: where its database lives, and its log level.
#[derive(Debug)]
pub struct RustSDKOptions {
    pub db_url: Option<String>,
    pub log_level: Option<String>,
}

impl From<(Option<String>, Option<String>)> for RustSDKOptions {
    fn from(t: (Option<String>, Option<String>)) -> (r: RustSDKOptions)
        ensures
            r.db_url == t.0,
            r.log_level == t.1,
    {
        RustSDKOptions { db_url: t.0, log_level: t.1 }
    }
}

impl vstd::std_specs::convert::FromSpecImpl<(Option<String>, Option<String>)> for RustSDKOptions {
    open spec fn obeys_from_spec() -> bool {
        true
    }

    open spec fn from_spec(t: (Option<String>, Option<String>)) -> RustSDKOptions {
        RustSDKOptions { db_url: t.0, log_level: t.1 }
    }
}

/// A stored room identity: the room id and the raw bytes of its ECDSA
/// (secp256r1) secret scalar and uncompressed public point.
#[derive(Debug)]
pub struct NoiseModel {
    pub id: String,
    pub private: Vec<u8>,
    pub public: Vec<u8>,
}

impl From<(String, Vec<u8>, Vec<u8>)> for NoiseModel {
    fn from(t: (String, Vec<u8>, Vec<u8>)) -> (r: NoiseModel)
        ensures
            r.id == t.0,
            r.private == t.1,
            r.public == t.2,
    {
        NoiseModel { id: t.0, private: t.1, public: t.2 }
    }
}

impl vstd::std_specs::convert::FromSpecImpl<(String, Vec<u8>, Vec<u8>)> for NoiseModel {
    open spec fn obeys_from_spec() -> bool {
        true
    }

    open spec fn from_spec(t: (String, Vec<u8>, Vec<u8>)) -> NoiseModel {
        NoiseModel { id: t.0, private: t.1, public: t.2 }
    }
}

/// A control message for a running swarm driver.
#[derive(Debug, Clone, Copy, PartialEq, Eq, Structural)]
pub enum ControlMessage {
    Stop,
}

/// A request of the file exchange protocol: the name of a file.
#[derive(Debug, Clone, PartialEq, Eq)]
pub struct FileRequest(pub String);

/// A response of the file exchange protocol: the file's bytes.
#[derive(Debug, Clone, PartialEq, Eq)]
pub struct FileResponse(pub Vec<u8>);

/// A copy of a byte vector.
pub fn copy_bytes(v: &Vec<u8>) -> (r: Vec<u8>)
    ensures
        r@ == v@,
{
    let mut r: Vec<u8> = Vec::new();
    let mut i: usize = 0;
    while i < v.len()
        invariant
            i <= v.len(),
            r@ == v@.subrange(0, i as int),
        decreases v.len() - i,
    {
        r.push(v[i]);
        i = i + 1;
    }
    assert(r@ =~= v@);
    r
}

/// Whether two byte vectors hold the same bytes.
pub fn same_bytes(a: &Vec<u8>, b: &Vec<u8>) -> (r: bool)
    ensures
        r == (a@ == b@),
{
    if a.len() != b.len() {
        return false;
    }
    let mut i: usize = 0;
    while i < a.len()
        invariant
            a.len() == b.len(),
            i <= a.len(),
            a@.subrange(0, i as int) == b@.subrange(0, i as int),
        decreases a.len() - i,
    {
        if a[i] != b[i] {
            assert(a@[i as int] != b@[i as int]);
            return false;
        }
        assert(a@.subrange(0, i + 1) =~= a@.subrange(0, i as int).push(a@[i as int]));
        assert(b@.subrange(0, i + 1) =~= b@.subrange(0, i as int).push(b@[i as int]));
        i = i + 1;
    }
    assert(a@ =~= a@.subrange(0, a.len() as int));
    assert(b@ =~= b@.subrange(0, b.len() as int));
    true
}

} // verus!
