use vstd::prelude::*;
use crate::error::{ErrorKind, Result, err_of};
use crate::keyed::{entry_of, has_key, keys_unique, lemma_entry_at, lemma_push, lemma_remove};
use crate::models::NoiseModel;
use libp2p::identity::Keypair;

verus! {

/// libp2p's keypair, carried through unopened.
#[verifier::external_type_specification]
#[verifier::external_body]
pub struct ExKeypair(libp2p::identity::Keypair);

/// The number that bytes encode, most significant byte first.
pub open spec fn big_endian(b: Seq<u8>) -> nat
    decreases b.len(),
{
    if b.len() == 0 {
        0
    } else {
        (big_endian(b.drop_last()) * 256 + b.last()) as nat
    }
}

/// The order of the secp256r1 (P-256) group.
pub open spec fn p256_order() -> nat {
    let w: nat = 0x1_0000_0000_0000_0000;
    ((0xffff_ffff_0000_0000nat * w + 0xffff_ffff_ffff_ffffnat) * w + 0xbce6_faad_a717_9e84nat) * w
        + 0xf3b9_cac2_fc63_2551nat
}

/// Whether bytes encode a secp256r1 secret scalar: a number from 1 to the
/// group order less one.
pub open spec fn ecdsa_secret_accepted(b: Seq<u8>) -> bool {
    0 < big_endian(b) && big_endian(b) < p256_order()
}

/// Length in bytes of a secp256r1 secret scalar.
pub const SECRET_KEY_LEN: usize = 32;

/// Length in bytes of an uncompressed secp256r1 public point.
pub const PUBLIC_KEY_LEN: usize = 65;

/// Relies on libp2p_identity::ecdsa::Keypair::generate, with
/// SecretKey::to_bytes and PublicKey::to_bytes: a fresh random keypair as a
/// 32-byte big-endian nonzero scalar below the group order, and a 65-byte
/// uncompressed point.
#[verifier::external_body]
fn generate_ecdsa_bytes() -> (r: (Vec<u8>, Vec<u8>))
    ensures
        r.0@.len() == SECRET_KEY_LEN,
        r.1@.len() == PUBLIC_KEY_LEN,
        ecdsa_secret_accepted(r.0@),
{
    let kp = libp2p::identity::ecdsa::Keypair::generate();
    (kp.secret().to_bytes(), kp.public().to_bytes())
}

/// Relies on libp2p_identity::ecdsa::SecretKey::try_from_bytes (whose
/// slice conversion panics unless given 32 bytes) to decode a secret scalar,
/// promoted to a keypair: it accepts the big-endian number when it is nonzero
/// and below the group order.
#[verifier::external_body]
fn keypair_from_secret(b: &Vec<u8>) -> (r: Option<Keypair>)
    requires
        b@.len() == SECRET_KEY_LEN,
    ensures
        r.is_some() == ecdsa_secret_accepted(b@),
{
    match libp2p::identity::ecdsa::SecretKey::try_from_bytes(b.as_slice()) {
        Ok(secret) => Some(Keypair::from(libp2p::identity::ecdsa::Keypair::from(secret))),
        Err(_) => None,
    }
}

/// Whether stored secret bytes decode to a keypair.
pub open spec fn secret_decodes(b: Seq<u8>) -> bool {
    b.len() == SECRET_KEY_LEN && ecdsa_secret_accepted(b)
}

/// The keypair that secret bytes decode to; bytes of the wrong length or
/// that do not encode a scalar are an invalid key.
pub fn decode_secret(b: &Vec<u8>) -> (r: Result<Keypair>)
    ensures
        r.is_ok() == secret_decodes(b@),
        r.is_err() ==> r.unwrap_err().0 == ErrorKind::InvalidKey,
{
    if b.len() != SECRET_KEY_LEN {
        return Err(err_of(ErrorKind::InvalidKey));
    }
    match keypair_from_secret(b) {
        Some(kp) => Ok(kp),
        None => Err(err_of(ErrorKind::InvalidKey)),
    }
}

/// An identity's key: its room id.
pub open spec fn identity_key() -> spec_fn(NoiseModel) -> Seq<char> {
    |m: NoiseModel| m.id@
}

/// Whether some identity in `s` belongs to room `id`.
pub open spec fn has_identity(s: Seq<NoiseModel>, id: Seq<char>) -> bool {
    has_key(s, identity_key(), id)
}

/// The identity of room `id` in `s` (meaningful where `has_identity`).
pub open spec fn identity_of(s: Seq<NoiseModel>, id: Seq<char>) -> NoiseModel {
    entry_of(s, identity_key(), id)
}

/// At most one identity per room.
pub open spec fn identities_unique(s: Seq<NoiseModel>) -> bool {
    keys_unique(s, identity_key())
}

pub proof fn lemma_identity_at(s: Seq<NoiseModel>, i: int)
    requires
        identities_unique(s),
        0 <= i < s.len(),
    ensures
        has_identity(s, s[i].id@),
        identity_of(s, s[i].id@) == s[i],
{
    lemma_entry_at(s, identity_key(), i);
}

pub proof fn lemma_identity_push(s: Seq<NoiseModel>, m: NoiseModel)
    requires
        identities_unique(s),
        !has_identity(s, m.id@),
    ensures
        identities_unique(s.push(m)),
        forall|k: Seq<char>|
            #![trigger has_identity(s.push(m), k)]
            has_identity(s.push(m), k) == (has_identity(s, k) || k == m.id@),
        forall|k: Seq<char>|
            has_identity(s, k) ==> #[trigger] identity_of(s.push(m), k) == identity_of(s, k),
        identity_of(s.push(m), m.id@) == m,
{
    lemma_push(s, identity_key(), m);
}

proof fn lemma_identity_remove(s: Seq<NoiseModel>, i: int)
    requires
        identities_unique(s),
        0 <= i < s.len(),
    ensures
        identities_unique(s.remove(i)),
        !has_identity(s.remove(i), s[i].id@),
        forall|k: Seq<char>|
            k != s[i].id@ ==> #[trigger] has_identity(s.remove(i), k) == has_identity(s, k),
        forall|k: Seq<char>|
            k != s[i].id@ && has_identity(s, k) ==> #[trigger] identity_of(s.remove(i), k) == identity_of(s, k),
{
    lemma_remove(s, identity_key(), i);
}

/// The stored identities, one per room.
pub struct NoiseKeyService {
    keys: Vec<NoiseModel>,
}

impl View for NoiseKeyService {
    type V = Seq<NoiseModel>;

    closed spec fn view(&self) -> Seq<NoiseModel> {
        self.keys@
    }
}

impl NoiseKeyService {
    pub open spec fn wf(&self) -> bool {
        identities_unique(self@)
    }

    pub fn new() -> (r: NoiseKeyService)
        ensures
            r.wf(),
            r@ == Seq::<NoiseModel>::empty(),
    {
        NoiseKeyService { keys: Vec::new() }
    }

    /// The position of room `room_id`'s identity, if any.
    fn position(&self, room_id: &String) -> (r: Option<usize>)
        requires
            self.wf(),
        ensures
            r.is_none() == !has_identity(self@, room_id@),
            r.is_some() ==> r.unwrap() < self@.len() && self@[r.unwrap() as int].id@ == room_id@,
    {
        let mut i: usize = 0;
        while i < self.keys.len()
            invariant
                i <= self.keys@.len(),
                forall|j: int| 0 <= j < i ==> (#[trigger] self.keys@[j]).id@ != room_id@,
            decreases self.keys.len() - i,
        {
            if self.keys[i].id == *room_id {
                return Some(i);
            }
            i = i + 1;
        }
        None
    }

    /// A fresh random identity for the room.
    pub fn generate_ecdsa_keypair(room_id: &str) -> (r: Result<NoiseModel>)
        ensures
            r.is_ok(),
            r.is_ok() ==> r.unwrap().id@ == room_id@ && secret_decodes(r.unwrap().private@)
                && r.unwrap().public@.len() == PUBLIC_KEY_LEN,
    {
        let (private, public) = generate_ecdsa_bytes();
        Ok(NoiseModel { id: room_id.to_owned(), private, public })
    }

    /// Decodes a stored identity into a keypair.
    pub fn from_entity(entity: &NoiseModel) -> (r: Result<Keypair>)
        ensures
            r.is_ok() == secret_decodes(entity.private@),
            r.is_err() ==> r.unwrap_err().0 == ErrorKind::InvalidKey,
    {
        decode_secret(&entity.private)
    }

    /// Stores an identity; a room has at most one.
    pub fn insert_key(&mut self, entity: NoiseModel) -> (r: Result<()>)
        requires
            old(self).wf(),
        ensures
            final(self).wf(),
            r.is_ok() == !has_identity(old(self)@, entity.id@),
            r.is_ok() ==> final(self)@ == old(self)@.push(entity),
            r.is_err() ==> final(self)@ == old(self)@ && r.unwrap_err().0 == ErrorKind::DuplicateKey,
    {
        match self.position(&entity.id) {
            Some(_) => Err(err_of(ErrorKind::DuplicateKey)),
            None => {
                proof {
                    lemma_identity_push(self@, entity);
                }
                self.keys.push(entity);
                Ok(())
            },
        }
    }

    /// Creates and stores a fresh identity for the room.
    pub fn create_key(&mut self, room_id: &str) -> (r: Result<()>)
        requires
            old(self).wf(),
        ensures
            final(self).wf(),
            r.is_ok() == !has_identity(old(self)@, room_id@),
            r.is_ok() ==> final(self)@.len() == old(self)@.len() + 1
                && final(self)@.drop_last() == old(self)@
                && final(self)@.last().id@ == room_id@
                && secret_decodes(final(self)@.last().private@),
            r.is_err() ==> final(self)@ == old(self)@ && r.unwrap_err().0 == ErrorKind::DuplicateKey,
    {
        let entity = match Self::generate_ecdsa_keypair(room_id) {
            Ok(e) => e,
            Err(e) => return Err(e),
        };
        let r = self.insert_key(entity);
        proof {
            if r.is_ok() {
                assert(self@.drop_last() =~= old(self)@);
            }
        }
        r
    }

    /// The stored identity of the room, as stored.
    pub fn get_entity(&self, room_id: &str) -> (r: Result<&NoiseModel>)
        requires
            self.wf(),
        ensures
            r.is_ok() == has_identity(self@, room_id@),
            r.is_ok() ==> *r.unwrap() == identity_of(self@, room_id@),
            r.is_err() ==> r.unwrap_err().0 == ErrorKind::KeyNotFound,
    {
        let id = room_id.to_owned();
        match self.position(&id) {
            Some(i) => {
                proof {
                    lemma_identity_at(self@, i as int);
                }
                Ok(&self.keys[i])
            },
            None => Err(err_of(ErrorKind::KeyNotFound)),
        }
    }

    /// The room's keypair: not found where the room has no identity, invalid
    /// where its stored secret does not decode.
    pub fn get_key(&self, room_id: &str) -> (r: Result<Keypair>)
        requires
            self.wf(),
        ensures
            r.is_ok() == (has_identity(self@, room_id@) && secret_decodes(identity_of(self@, room_id@).private@)),
            r.is_err() ==> (!has_identity(self@, room_id@) && r.unwrap_err().0 == ErrorKind::KeyNotFound)
                || (has_identity(self@, room_id@) && r.unwrap_err().0 == ErrorKind::InvalidKey),
    {
        match self.get_entity(room_id) {
            Ok(entity) => Self::from_entity(entity),
            Err(e) => Err(e),
        }
    }

    /// Deletes the room's identity; deleting an absent one is no error.
    pub fn delete_key(&mut self, room_id: &str) -> (r: Result<()>)
        requires
            old(self).wf(),
        ensures
            final(self).wf(),
            r.is_ok(),
            !has_identity(final(self)@, room_id@),
            forall|k: Seq<char>| k != room_id@ ==> #[trigger] has_identity(final(self)@, k) == has_identity(old(self)@, k),
            forall|k: Seq<char>| k != room_id@ && has_identity(old(self)@, k)
                ==> #[trigger] identity_of(final(self)@, k) == identity_of(old(self)@, k),
    {
        let id = room_id.to_owned();
        match self.position(&id) {
            Some(i) => {
                proof {
                    lemma_identity_remove(self@, i as int);
                }
                self.keys.remove(i);
            },
            None => {},
        }
        Ok(())
    }

    /// Every stored identity.
    pub fn get_keys(&self) -> (r: &Vec<NoiseModel>)
        ensures
            r@ == self@,
    {
        &self.keys
    }
}

/// The bootstrap node's keypair as stored: secret scalar and public point bytes.
#[derive(Debug)]
pub struct KeypairWrapper {
    secret: Vec<u8>,
    public: Vec<u8>,
}

impl KeypairWrapper {
    pub closed spec fn spec_secret(&self) -> Seq<u8> {
        self.secret@
    }

    pub closed spec fn spec_public(&self) -> Seq<u8> {
        self.public@
    }

    pub fn new(secret: Vec<u8>, public: Vec<u8>) -> (r: KeypairWrapper)
        ensures
            r.spec_secret() == secret@,
            r.spec_public() == public@,
    {
        KeypairWrapper { secret, public }
    }

    pub fn secret(&self) -> (r: &Vec<u8>)
        ensures
            r@ == self.spec_secret(),
    {
        &self.secret
    }

    pub fn public(&self) -> (r: &Vec<u8>)
        ensures
            r@ == self.spec_public(),
    {
        &self.public
    }

    /// A fresh random keypair.
    pub fn generate() -> (r: KeypairWrapper)
        ensures
            secret_decodes(r.spec_secret()),
            r.spec_public().len() == PUBLIC_KEY_LEN,
    {
        let (secret, public) = generate_ecdsa_bytes();
        KeypairWrapper { secret, public }
    }

    /// The keypair its secret decodes to.
    pub fn to_keypair(&self) -> (r: Result<Keypair>)
        ensures
            r.is_ok() == secret_decodes(self.spec_secret()),
            r.is_err() ==> r.unwrap_err().0 == ErrorKind::InvalidKey,
    {
        decode_secret(&self.secret)
    }
}

} // verus!
