//! The keys a peer holds: the public keys it accepts tickets from, and at most one
//! private key to sign its own tickets with.
use ed25519_dalek::Signer;
use vstd::prelude::*;

verus! {

/// Length in bytes of an Ed25519 key, public or private.
pub const KEY_LEN: usize = 32;

/// Length in bytes of an Ed25519 signature.
pub const ED25519_SIGNATURE_LEN: usize = 64;

/// The value of a hexadecimal digit, upper or lower case.
pub open spec fn hex_digit(c: char) -> Option<int> {
    if '0' <= c <= '9' {
        Some(c as int - '0' as int)
    } else if 'a' <= c <= 'f' {
        Some(c as int - 'a' as int + 10)
    } else if 'A' <= c <= 'F' {
        Some(c as int - 'A' as int + 10)
    } else {
        None
    }
}

/// `s` is a 256-bit number written as 64 hexadecimal digits.
pub open spec fn is_hex_key(s: Seq<char>) -> bool {
    &&& s.len() == 2 * KEY_LEN
    &&& forall|i: int| 0 <= i < s.len() ==> hex_digit(#[trigger] s[i]) is Some
}

/// The 32 bytes that the 64 hexadecimal digits of `s` spell, two digits to a byte,
/// the high digit first.
pub open spec fn hex_key_bytes(s: Seq<char>) -> Seq<u8> {
    Seq::new(
        KEY_LEN as nat,
        |i: int| (hex_digit(s[2 * i]).unwrap() * 16 + hex_digit(s[2 * i + 1]).unwrap()) as u8,
    )
}

/// Whether 32 bytes are the encoding of a point of the Ed25519 curve, that is whether
/// `ed25519_dalek::VerifyingKey::from_bytes` accepts them.
pub uninterp spec fn ed25519_valid_key(key: Seq<u8>) -> bool;

/// The public key that `ed25519_dalek` derives from a private key.
pub uninterp spec fn ed25519_public_key(private_key: Seq<u8>) -> Seq<u8>;

/// The Ed25519 signature of `message` under a private key, as `ed25519_dalek`
/// computes it. Signing is deterministic.
pub uninterp spec fn ed25519_signature(private_key: Seq<u8>, message: Seq<u8>) -> Seq<u8>;

/// Whether `ed25519_dalek::VerifyingKey::verify_strict` accepts `signature` for
/// `message` under `public_key`.
pub uninterp spec fn ed25519_accepts(
    public_key: Seq<u8>,
    message: Seq<u8>,
    signature: Seq<u8>,
) -> bool;

/// `hex::decode_to_slice` into 32 bytes. It succeeds on exactly the strings of 64
/// hexadecimal digits, and then yields the bytes they spell.
#[verifier::external_body]
pub(crate) fn decode_hex_key(key: &str) -> (r: Option<[u8; 32]>)
    ensures
        r is Some <==> is_hex_key(key@),
        r matches Some(bytes) ==> bytes@ == hex_key_bytes(key@),
{
    let mut buffer = [0u8; 32];
    match hex::decode_to_slice(key, &mut buffer) {
        Ok(()) => Some(buffer),
        Err(_) => None,
    }
}

/// `ed25519_dalek::VerifyingKey::from_bytes`, as a test: whether the bytes decompress
/// to a curve point.
#[verifier::external_body]
pub(crate) fn check_public_key(key: &[u8; 32]) -> (ok: bool)
    ensures
        ok == ed25519_valid_key(key@),
{
    ed25519_dalek::VerifyingKey::from_bytes(key).is_ok()
}

/// `ed25519_dalek::VerifyingKey::verify_strict` on raw bytes. A key that does not
/// decompress accepts nothing.
#[verifier::external_body]
pub(crate) fn verify_strict(key: &[u8; 32], message: &[u8], signature: &[u8; 64]) -> (ok: bool)
    ensures
        ok == (ed25519_valid_key(key@) && ed25519_accepts(key@, message@, signature@)),
{
    match ed25519_dalek::VerifyingKey::from_bytes(key) {
        Ok(k) => k.verify_strict(message, &ed25519_dalek::Signature::from_bytes(signature)).is_ok(),
        Err(_) => false,
    }
}

/// `ed25519_dalek::SigningKey::sign` on raw bytes.
#[verifier::external_body]
pub(crate) fn sign_message(private_key: &[u8; 32], message: &[u8]) -> (signature: [u8; 64])
    ensures
        signature@ == ed25519_signature(private_key@, message@),
{
    ed25519_dalek::SigningKey::from_bytes(private_key).sign(message).to_bytes()
}

/// `ed25519_dalek::SigningKey::verifying_key` on raw bytes.
#[verifier::external_body]
pub(crate) fn public_key_of(private_key: &[u8; 32]) -> (public_key: [u8; 32])
    ensures
        public_key@ == ed25519_public_key(private_key@),
{
    ed25519_dalek::SigningKey::from_bytes(private_key).verifying_key().to_bytes()
}

/// What a key ring holds.
pub struct KeyRingView {
    /// The authorized public keys.
    pub public_keys: Set<Seq<u8>>,
    /// The private key, if there is one.
    pub private_key: Option<Seq<u8>>,
}

/// A set of authorized public keys and at most one private key.
#[derive(Debug)]
pub struct KeyRing {
    public_keys: Vec<[u8; 32]>,
    private_key: Option<[u8; 32]>,
}

/// Whether two keys have the same bytes.
pub fn same_key(a: &[u8; 32], b: &[u8]) -> (eq: bool)
    ensures
        eq == (a@ == b@),
{
    if b.len() != 32 {
        return false;
    }
    let mut i: usize = 0;
    while i < 32
        invariant
            0 <= i <= 32,
            b@.len() == 32,
            forall|j: int| 0 <= j < i ==> a@[j] == b@[j],
        decreases 32 - i,
    {
        if a[i] != b[i] {
            return false;
        }
        i = i + 1;
    }
    assert(a@ =~= b@);
    true
}

/// Every public key is 64 hexadecimal digits that spell a curve point, and the
/// private key, if given, is 64 hexadecimal digits.
pub open spec fn acceptable_keys(public_keys: Seq<String>, private_key: Option<String>) -> bool {
    &&& forall|i: int|
        0 <= i < public_keys.len() ==> is_hex_key((#[trigger] public_keys[i])@)
            && ed25519_valid_key(hex_key_bytes(public_keys[i]@))
    &&& private_key matches Some(k) ==> is_hex_key(k@)
}

/// The ring that holds the keys spelled by the given strings.
pub open spec fn ring_of(public_keys: Seq<String>, private_key: Option<String>) -> KeyRingView {
    KeyRingView {
        public_keys: Set::new(
            |k: Seq<u8>|
                exists|i: int|
                    0 <= i < public_keys.len() && k == hex_key_bytes(#[trigger] public_keys[i]@),
        ),
        private_key: match private_key {
            Some(k) => Some(hex_key_bytes(k@)),
            None => None,
        },
    }
}

impl View for KeyRing {
    type V = KeyRingView;

    closed spec fn view(&self) -> KeyRingView {
        KeyRingView {
            public_keys: Set::new(
                |k: Seq<u8>|
                    exists|i: int|
                        0 <= i < self.public_keys@.len() && k == (#[trigger] self.public_keys@[i])@,
            ),
            private_key: match self.private_key {
                Some(k) => Some(k@),
                None => None,
            },
        }
    }
}

/// Tells whether [`KeyRing::new`] accepts the given keys.
pub fn keys_are_acceptable(public_keys: &Vec<String>, private_key: &Option<String>) -> (ok: bool)
    ensures
        ok == acceptable_keys(public_keys@, *private_key),
{
    let mut i: usize = 0;
    while i < public_keys.len()
        invariant
            0 <= i <= public_keys@.len(),
            forall|j: int|
                0 <= j < i ==> is_hex_key((#[trigger] public_keys@[j])@) && ed25519_valid_key(
                    hex_key_bytes(public_keys@[j]@),
                ),
        decreases public_keys@.len() - i,
    {
        match decode_hex_key(public_keys[i].as_str()) {
            Some(bytes) => {
                if !check_public_key(&bytes) {
                    return false;
                }
            },
            None => {
                return false;
            },
        }
        i = i + 1;
    }
    match private_key {
        Some(k) => decode_hex_key(k.as_str()).is_some(),
        None => true,
    }
}

impl Default for KeyRing {
    /// An empty ring.
    fn default() -> (ring: KeyRing)
        ensures
            ring@.public_keys == Set::<Seq<u8>>::empty(),
            ring@.private_key is None,
    {
        KeyRing::empty()
    }
}

impl KeyRing {
    /// An empty ring.
    pub fn empty() -> (ring: KeyRing)
        ensures
            ring@.public_keys == Set::<Seq<u8>>::empty(),
            ring@.private_key is None,
    {
        let ring = KeyRing { public_keys: Vec::new(), private_key: None };
        assert(ring@.public_keys =~= Set::<Seq<u8>>::empty());
        ring
    }

    /// The ring of the keys given as hexadecimal strings.
    pub fn new(public_keys: Vec<String>, private_key: Option<String>) -> (ring: KeyRing)
        requires
            acceptable_keys(public_keys@, private_key),
        ensures
            ring@ == ring_of(public_keys@, private_key),
    {
        let mut keys: Vec<[u8; 32]> = Vec::new();
        let mut i: usize = 0;
        while i < public_keys.len()
            invariant
                0 <= i <= public_keys@.len(),
                acceptable_keys(public_keys@, private_key),
                keys@.len() == i,
                forall|j: int|
                    0 <= j < i ==> (#[trigger] keys@[j])@ == hex_key_bytes(public_keys@[j]@),
            decreases public_keys@.len() - i,
        {
            let parsed = decode_hex_key(public_keys[i].as_str());
            keys.push(parsed.unwrap());
            i = i + 1;
        }
        let private: Option<[u8; 32]> = match &private_key {
            Some(k) => Some(decode_hex_key(k.as_str()).unwrap()),
            None => None,
        };
        let ring = KeyRing { public_keys: keys, private_key: private };
        proof {
            let want = ring_of(public_keys@, private_key);
            assert forall|k: Seq<u8>| ring@.public_keys.contains(k) <==> want.public_keys.contains(
                k,
            ) by {
                if ring@.public_keys.contains(k) {
                    let i = choose|i: int|
                        0 <= i < ring.public_keys@.len() && k == (#[trigger] ring.public_keys@[i])@;
                    assert(k == hex_key_bytes(public_keys@[i]@));
                }
                if want.public_keys.contains(k) {
                    let i = choose|i: int|
                        0 <= i < public_keys@.len() && k == hex_key_bytes(
                            #[trigger] public_keys@[i]@,
                        );
                    assert(k == ring.public_keys@[i]@);
                }
            }
            assert(ring@.public_keys =~= want.public_keys);
        }
        ring
    }

    /// The ring of the keys given as hexadecimal strings, or `None` where
    /// [`KeyRing::new`] does not accept them.
    pub fn try_new(public_keys: Vec<String>, private_key: Option<String>) -> (ring: Option<KeyRing>)
        ensures
            ring is Some <==> acceptable_keys(public_keys@, private_key),
            ring matches Some(r) ==> r@ == ring_of(public_keys@, private_key),
    {
        if keys_are_acceptable(&public_keys, &private_key) {
            Some(KeyRing::new(public_keys, private_key))
        } else {
            None
        }
    }

    /// Tells whether `key` is one of the authorized public keys.
    pub fn contains_public_key(&self, key: &[u8]) -> (found: bool)
        ensures
            found == self@.public_keys.contains(key@),
    {
        let mut i: usize = 0;
        while i < self.public_keys.len()
            invariant
                0 <= i <= self.public_keys@.len(),
                forall|j: int| 0 <= j < i ==> (#[trigger] self.public_keys@[j])@ != key@,
            decreases self.public_keys@.len() - i,
        {
            if same_key(&self.public_keys[i], key) {
                return true;
            }
            i = i + 1;
        }
        false
    }

    /// Authorizes one more public key.
    pub fn add_public_key(self, key: [u8; 32]) -> (ring: KeyRing)
        ensures
            ring@.public_keys == self@.public_keys.insert(key@),
            ring@.private_key == self@.private_key,
    {
        let mut ring = self;
        let ghost before = ring.public_keys@;
        if !ring.contains_public_key(key.as_slice()) {
            ring.public_keys.push(key);
        }
        proof {
            assert forall|k: Seq<u8>| ring@.public_keys.contains(k) <==> self@.public_keys.insert(
                key@,
            ).contains(k) by {
                if ring@.public_keys.contains(k) {
                    let i = choose|i: int|
                        0 <= i < ring.public_keys@.len() && k == (#[trigger] ring.public_keys@[i])@;
                    if i < before.len() {
                        assert(k == before[i]@);
                    }
                }
                if self@.public_keys.contains(k) {
                    let i = choose|i: int|
                        0 <= i < before.len() && k == (#[trigger] before[i])@;
                    assert(k == ring.public_keys@[i]@);
                }
                if k == key@ {
                    if before.len() < ring.public_keys@.len() {
                        assert(k == ring.public_keys@[before.len() as int]@);
                    }
                }
            }
            assert(ring@.public_keys =~= self@.public_keys.insert(key@));
        }
        ring
    }

    /// Replaces the private key.
    pub fn set_private_key(self, key: [u8; 32]) -> (ring: KeyRing)
        ensures
            ring@.public_keys == self@.public_keys,
            ring@.private_key == Some(key@),
    {
        let mut ring = self;
        ring.private_key = Some(key);
        ring
    }

    /// Signs `content` with the private key, if there is one.
    pub fn sign_with_private_key(&self, content: &[u8]) -> (signature: Option<[u8; 64]>)
        ensures
            signature is Some <==> self@.private_key is Some,
            signature matches Some(s) ==> s@ == ed25519_signature(
                self@.private_key.unwrap(),
                content@,
            ),
    {
        match &self.private_key {
            Some(key) => Some(sign_message(key, content)),
            None => None,
        }
    }

    /// The public key that belongs to the private key, if there is one.
    pub fn derive_public_key(&self) -> (public_key: Option<[u8; 32]>)
        ensures
            public_key is Some <==> self@.private_key is Some,
            public_key matches Some(k) ==> k@ == ed25519_public_key(self@.private_key.unwrap()),
    {
        match &self.private_key {
            Some(key) => Some(public_key_of(key)),
            None => None,
        }
    }
}

/// Fills the slot of the process-wide key ring. The slot is written once: filling it
/// twice is a programming error.
pub fn init(slot: &mut Option<KeyRing>, public_keys: Vec<String>, private_key: Option<String>)
    requires
        *old(slot) is None,
        acceptable_keys(public_keys@, private_key),
    ensures
        *final(slot) matches Some(ring) && ring@ == ring_of(public_keys@, private_key),
{
    *slot = Some(KeyRing::new(public_keys, private_key));
}

/// Fills the slot of the process-wide key ring if it is empty and the keys are
/// acceptable, and tells whether it did.
pub fn try_init(
    slot: &mut Option<KeyRing>,
    public_keys: Vec<String>,
    private_key: Option<String>,
) -> (done: bool)
    ensures
        done == (*old(slot) is None && acceptable_keys(public_keys@, private_key)),
        done ==> (*final(slot) matches Some(ring) && ring@ == ring_of(public_keys@, private_key)),
        !done ==> *final(slot) == *old(slot),
{
    if slot.is_none() && keys_are_acceptable(&public_keys, &private_key) {
        init(slot, public_keys, private_key);
        true
    } else {
        false
    }
}

} // verus!
