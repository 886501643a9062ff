//! The hybrid key exchange X25519MLKEM768, on the client's side. The
//! post-quantum part comes first, the classical one second, in shares and in
//! secrets.
use vstd::prelude::*;
use vstd::slice::slice_subrange;
use ml_kem::kem::Decapsulate;
use ml_kem::{EncodedSizeUser, KemCore};
use crate::crypto::{array32, random_bytes};

verus! {

/// Length of an X25519 share.
pub const X25519_LEN: usize = 32;

/// Length of an ML-KEM-768 encapsulation key.
pub const MLKEM768_ENCAP_LEN: usize = 1184;

/// Length of an ML-KEM-768 ciphertext.
pub const MLKEM768_CIPHERTEXT_LEN: usize = 1088;

/// Length of an encoded ML-KEM-768 decapsulation key.
pub const MLKEM768_DECAP_LEN: usize = 2400;

/// Length of the seed of an ML-KEM-768 key pair: two seeds of 32 bytes.
pub const MLKEM768_SEED_LEN: usize = 64;

/// Length of the secret that ML-KEM-768 agrees on.
pub const MLKEM768_SECRET_LEN: usize = 32;

/// The encapsulation key within an encoded decapsulation key.
pub open spec fn encap_part(decap: Seq<u8>) -> Seq<u8> {
    decap.subrange(1152, 2336)
}

/// The secret that ML-KEM-768 takes out of a ciphertext with an encoded
/// decapsulation key.
pub uninterp spec fn mlkem_secret(decap: Seq<u8>, ciphertext: Seq<u8>) -> Seq<u8>;

/// The encoded decapsulation key that ML-KEM-768 makes of two seeds.
pub uninterp spec fn mlkem_key(d: Seq<u8>, z: Seq<u8>) -> Seq<u8>;

/// `ml_kem::MlKem768::generate_deterministic`: the named decapsulation key,
/// encoded, and the encapsulation key, which the first holds too.
#[verifier::external_body]
fn mlkem_generate(d: &[u8; 32], z: &[u8; 32]) -> (r: (Vec<u8>, Vec<u8>))
    ensures
        r.0@ == mlkem_key(d@, z@),
        r.0@.len() == MLKEM768_DECAP_LEN,
        r.1@ == encap_part(r.0@),
{
    let (decap, encap) = ml_kem::MlKem768::generate_deterministic(&(*d).into(), &(*z).into());
    (decap.as_bytes().to_vec(), encap.as_bytes().to_vec())
}

/// `decapsulate` of `ml_kem`'s decapsulation key for ML-KEM-768, which does
/// not fail: the named secret.
#[verifier::external_body]
fn mlkem_decapsulate(decap: &[u8], ciphertext: &[u8]) -> (secret: Vec<u8>)
    requires
        decap@.len() == MLKEM768_DECAP_LEN,
        ciphertext@.len() == MLKEM768_CIPHERTEXT_LEN,
    ensures
        secret@.len() == MLKEM768_SECRET_LEN,
        secret@ == mlkem_secret(decap@, ciphertext@),
{
    let encoded = decap.try_into().expect("length of a decapsulation key");
    let key = <ml_kem::MlKem768 as KemCore>::DecapsulationKey::from_bytes(&encoded);
    let sealed = ciphertext.try_into().expect("length of a ciphertext");
    key.decapsulate(&sealed).expect("decapsulation does not fail").to_vec()
}

/// An exchange with ML-KEM-768 that waits for the server's ciphertext.
pub struct MlKemActive {
    decap_key: Vec<u8>,
    encap_bytes: Vec<u8>,
}

impl View for MlKemActive {
    type V = Seq<u8>;

    /// The encoded decapsulation key.
    closed spec fn view(&self) -> Seq<u8> {
        self.decap_key@
    }
}

impl MlKemActive {
    /// The two keys belong together.
    #[verifier::type_invariant]
    closed spec fn holds_a_pair(self) -> bool {
        self.decap_key@.len() == MLKEM768_DECAP_LEN && self.encap_bytes@ == encap_part(
            self.decap_key@,
        )
    }

    /// An exchange with the keys made of a seed, where there is one.
    pub fn start_with(seed: &Option<Vec<u8>>) -> (r: Option<MlKemActive>)
        requires
            seed matches Some(b) ==> b@.len() == MLKEM768_SEED_LEN,
        ensures
            match *seed {
                None => r is None,
                Some(b) => r matches Some(a) && a@ == mlkem_key(
                    b@.subrange(0, 32),
                    b@.subrange(32, 64),
                ),
            },
    {
        match seed {
            None => None,
            Some(b) => {
                let d: [u8; 32] = array32(b.as_slice(), 0);
                let z: [u8; 32] = array32(b.as_slice(), 32);
                let keys: (Vec<u8>, Vec<u8>) = mlkem_generate(&d, &z);
                Some(MlKemActive { decap_key: keys.0, encap_bytes: keys.1 })
            },
        }
    }

    /// An exchange with fresh keys, where the operating system has randomness to
    /// give. Which keys is left to chance.
    pub fn start() -> (r: Option<MlKemActive>)
        ensures
            r matches Some(a) ==> exists|d: Seq<u8>, z: Seq<u8>|
                d.len() == 32 && z.len() == 32 && a@ == #[trigger] mlkem_key(d, z),
    {
        let seed: Option<Vec<u8>> = random_bytes(MLKEM768_SEED_LEN);
        let r: Option<MlKemActive> = Self::start_with(&seed);
        assert(r matches Some(a) ==> a@ == mlkem_key(
            seed->Some_0@.subrange(0, 32),
            seed->Some_0@.subrange(32, 64),
        ));
        r
    }

    /// What is sent to the server: the encapsulation key.
    pub fn pub_key(&self) -> (r: &[u8])
        ensures
            r@ == encap_part(self@),
            r@.len() == MLKEM768_ENCAP_LEN,
    {
        proof {
            use_type_invariant(self);
        }
        self.encap_bytes.as_slice()
    }

    /// The secret agreed on, from the server's ciphertext; none where that has
    /// not the right length.
    pub fn complete(&self, peer_pub_key: &[u8]) -> (r: Option<Vec<u8>>)
        ensures
            r is Some <==> peer_pub_key@.len() == MLKEM768_CIPHERTEXT_LEN,
            r matches Some(s) ==> s@ == mlkem_secret(self@, peer_pub_key@) && s@.len()
                == MLKEM768_SECRET_LEN,
    {
        proof {
            use_type_invariant(self);
        }
        if peer_pub_key.len() != MLKEM768_CIPHERTEXT_LEN {
            return None;
        }
        Some(mlkem_decapsulate(self.decap_key.as_slice(), peer_pub_key))
    }
}

/// The two parts of a server's share, post-quantum first, if it has the right
/// length.
pub open spec fn share_parts(share: Seq<u8>) -> Option<(Seq<u8>, Seq<u8>)> {
    if share.len() == MLKEM768_CIPHERTEXT_LEN + X25519_LEN {
        Some(
            (
                share.take(MLKEM768_CIPHERTEXT_LEN as int),
                share.skip(MLKEM768_CIPHERTEXT_LEN as int),
            ),
        )
    } else {
        None
    }
}

/// A server's share made of two parts splits into them.
pub proof fn combined_share_splits(post_quantum: Seq<u8>, classical: Seq<u8>)
    requires
        post_quantum.len() == MLKEM768_CIPHERTEXT_LEN,
        classical.len() == X25519_LEN,
    ensures
        share_parts(post_quantum + classical) == Some((post_quantum, classical)),
{
    let s = post_quantum + classical;
    assert(s.take(MLKEM768_CIPHERTEXT_LEN as int) =~= post_quantum);
    assert(s.skip(MLKEM768_CIPHERTEXT_LEN as int) =~= classical);
}

/// Shares or secrets of the two exchanges in one, post-quantum first.
pub fn combine(post_quantum: &[u8], classical: &[u8]) -> (out: Vec<u8>)
    ensures
        out@ == post_quantum@ + classical@,
{
    crate::crypto::concat(post_quantum, classical)
}

/// The two parts of a server's share, post-quantum first, if it has the right
/// length.
pub fn split_share(share: &[u8]) -> (r: Option<(Vec<u8>, Vec<u8>)>)
    ensures
        r matches Some((q, c)) ==> share_parts(share@) == Some((q@, c@)),
        r is None ==> share_parts(share@) is None,
{
    if share.len() != MLKEM768_CIPHERTEXT_LEN + X25519_LEN {
        return None;
    }
    let mut post_quantum: Vec<u8> = Vec::new();
    post_quantum.extend_from_slice(slice_subrange(share, 0, MLKEM768_CIPHERTEXT_LEN));
    let mut classical: Vec<u8> = Vec::new();
    classical.extend_from_slice(slice_subrange(share, MLKEM768_CIPHERTEXT_LEN, share.len()));
    assert(post_quantum@ =~= share@.take(MLKEM768_CIPHERTEXT_LEN as int));
    assert(classical@ =~= share@.skip(MLKEM768_CIPHERTEXT_LEN as int));
    Some((post_quantum, classical))
}

} // verus!
