//! Keys that are kept out of swap.
use vstd::prelude::*;
use vstd::string::*;
use crate::crypto::wipe_key;

verus! {

/// `region::lock` on the pages of a key, held until [`unlock_memory`]. Whether
/// it succeeds is up to the machine.
#[verifier::external_body]
fn lock_memory(key: &[u8; 32]) -> (locked: bool) {
    region::lock(key.as_ptr(), key.len()).map(core::mem::forget).is_ok()
}

/// `region::unlock` on the pages of a key. A failure is passed over.
#[verifier::external_body]
fn unlock_memory(key: &[u8; 32])
    opens_invariants none
    no_unwind
{
    let _ = region::unlock(key.as_ptr(), key.len());
}

/// A key of 32 bytes, locked into memory where that is possible and wiped in
/// the end. It stays at one place in memory however the value is moved.
pub struct SealedKey {
    key: Box<[u8; 32]>,
    locked: bool,
}

impl View for SealedKey {
    type V = Seq<u8>;

    closed spec fn view(&self) -> Seq<u8> {
        self.key@
    }
}

impl SealedKey {
    /// Whether the place of the key is locked into memory.
    pub closed spec fn is_locked(&self) -> bool {
        self.locked
    }

    /// A key, locked into memory where the machine allows it.
    pub fn new(bytes: [u8; 32]) -> (r: SealedKey)
        ensures
            r@ == bytes@,
    {
        let key: Box<[u8; 32]> = Box::new(bytes);
        let locked: bool = lock_memory(&key);
        SealedKey { key, locked }
    }

    /// The bytes of the key.
    pub fn bytes(&self) -> (r: &[u8; 32])
        ensures
            r@ == self@,
    {
        &self.key
    }

    /// Whether the place of the key is locked into memory.
    pub fn locked(&self) -> (b: bool)
        ensures
            b == self.is_locked(),
    {
        self.locked
    }

    /// The key for logs, without its bytes.
    pub fn debug_text(&self) -> (out: String)
        ensures
            out@ == (if self.is_locked() {
                "SealedKey { locked: true, .. }"@
            } else {
                "SealedKey { locked: false, .. }"@
            }),
    {
        if self.locked {
            "SealedKey { locked: true, .. }".to_owned()
        } else {
            "SealedKey { locked: false, .. }".to_owned()
        }
    }
}

impl core::ops::Deref for SealedKey {
    type Target = [u8; 32];

    fn deref(&self) -> (r: &[u8; 32])
        ensures
            r@ == self@,
    {
        &self.key
    }
}

impl Drop for SealedKey {
    /// Wipes the key while its place is still locked, then unlocks the place.
    fn drop(&mut self)
        opens_invariants none
        no_unwind
    {
        wipe_key(&mut self.key);
        if self.locked {
            unlock_memory(&self.key);
        }
    }
}

} // verus!
