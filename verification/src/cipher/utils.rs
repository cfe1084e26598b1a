use rand::RngCore;
use vstd::prelude::*;
use vstd::string::*;
use vstd::utf8::*;

verus! {

/// Number of bytes in an AES-256 key.
pub const KEY_LEN: usize = 32;

/// Number of bytes in the nonce that precedes every ciphertext.
pub const NONCE_LEN: usize = 12;

/// The byte every short secret is padded with: ASCII `'0'`.
pub const KEY_PAD: u8 = 0x30;

/// The key derived from a configured secret: the secret's first 32 bytes,
/// followed by as many `'0'` bytes as it takes to reach 32.
pub open spec fn derived_key(secret: Seq<u8>) -> Seq<u8> {
    Seq::new(32, |i: int| if i < secret.len() { secret[i] } else { KEY_PAD })
}

/// Derives the 32-byte key from the configured secret string: a shorter
/// secret is right-padded with `'0'`, a longer one is cut after 32 bytes.
pub fn ensure_key_len_for_aes256(secret: String) -> (key: [u8; 32])
    ensures
        key@ == derived_key(encode_utf8(secret@)),
{
    let bytes = secret.as_str().as_bytes();
    let mut key: [u8; 32] = [KEY_PAD; 32];
    let mut i: usize = 0;
    while i < 32 && i < bytes.len()
        invariant
            i <= 32,
            i <= bytes@.len(),
            forall|j: int| 0 <= j < i ==> key@[j] == bytes@[j],
            forall|j: int| i <= j < 32 ==> key@[j] == KEY_PAD,
        decreases 32 - i,
    {
        key[i] = bytes[i];
        i = i + 1;
    }
    assert(key@ =~= derived_key(bytes@));
    key
}

/// The three ways a secret becomes a key: one shorter than 32 bytes is
/// followed by `'0'` bytes, one longer than 32 bytes loses what follows its
/// first 32, and one of exactly 32 bytes is the key.
pub proof fn lemma_derived_key_by_length(secret: Seq<u8>)
    ensures
        derived_key(secret).len() == KEY_LEN,
        secret.len() < KEY_LEN ==> derived_key(secret) == secret + Seq::new(
            (KEY_LEN - secret.len()) as nat,
            |i: int| KEY_PAD,
        ),
        secret.len() > KEY_LEN ==> derived_key(secret) == secret.subrange(0, KEY_LEN as int),
        secret.len() == KEY_LEN ==> derived_key(secret) == secret,
{
    if secret.len() < KEY_LEN {
        assert(derived_key(secret) =~= secret + Seq::new(
            (KEY_LEN - secret.len()) as nat,
            |i: int| KEY_PAD,
        ));
    } else {
        assert(derived_key(secret) =~= secret.subrange(0, KEY_LEN as int));
        if secret.len() == KEY_LEN {
            assert(secret.subrange(0, KEY_LEN as int) =~= secret);
        }
    }
}

/// Draws a nonce from the thread's generator of the `rand` crate, by
/// `RngCore::fill_bytes`. Nothing is claimed of the bytes drawn.
#[verifier::external_body]
pub fn generate_nonce() -> (nonce: [u8; 12]) {
    let mut bytes = [0u8; 12];
    rand::thread_rng().fill_bytes(&mut bytes);
    bytes
}

} // verus!
