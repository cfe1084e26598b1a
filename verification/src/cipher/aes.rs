use aes_gcm::aead::{Aead, KeyInit};
use base64::Engine;
use crate::application::env::AppEnv;
use crate::cipher::utils::{derived_key, ensure_key_len_for_aes256, generate_nonce, NONCE_LEN};
use crate::cipher::{Algorithm, Cipher, CipherError};
use crate::text::text_of_utf8;
use vstd::prelude::*;
use vstd::slice::*;
use vstd::string::*;
use vstd::utf8::*;

verus! {

/// Number of bytes in the authentication tag that ends every ciphertext.
pub const TAG_LEN: usize = 16;

/// The longest plaintext, in bytes, that AES-GCM seals.
pub const MAX_PLAINTEXT_LEN: u64 = 0x10_0000_0000;

/// The ciphertext and tag that AES-256-GCM produces for `plaintext` under
/// `key` and `nonce`, with no associated data.
pub uninterp spec fn aes256_gcm_seal(key: Seq<u8>, nonce: Seq<u8>, plaintext: Seq<u8>) -> Seq<u8>;

/// The plaintext that AES-256-GCM recovers from `sealed` under `key` and
/// `nonce`, or `None` where it rejects `sealed`.
pub uninterp spec fn aes256_gcm_open(key: Seq<u8>, nonce: Seq<u8>, sealed: Seq<u8>) -> Option<
    Seq<u8>,
>;

/// The standard, padded base64 text of `bytes`.
pub uninterp spec fn base64_standard_encode(bytes: Seq<u8>) -> Seq<char>;

/// The bytes that the standard, padded base64 text `text` stands for, or
/// `None` where `text` is not such a text.
pub uninterp spec fn base64_standard_decode(text: Seq<char>) -> Option<Seq<u8>>;

/// Length of the padded base64 text of `len` bytes.
pub open spec fn base64_len(len: int) -> int {
    (len / 3) * 4 + if len % 3 > 0 { 4int } else { 0int }
}

/// Calls `Aes256Gcm::encrypt` of the `aes_gcm` crate with a cipher made from
/// `key`. The call fails exactly on a plaintext longer than the
/// algorithm's limit; otherwise its result is the plaintext's ciphertext
/// followed by the 16-byte tag, and opening that result under the same key
/// and nonce gives the plaintext back.
#[verifier::external_body]
fn seal(key: &[u8; 32], nonce: &[u8; 12], plaintext: &[u8]) -> (sealed: Option<Vec<u8>>)
    ensures
        sealed is Some <==> plaintext@.len() <= MAX_PLAINTEXT_LEN,
        sealed matches Some(bytes) ==> {
            &&& bytes@ == aes256_gcm_seal(key@, nonce@, plaintext@)
            &&& bytes@.len() == plaintext@.len() + TAG_LEN
            &&& aes256_gcm_open(key@, nonce@, bytes@) == Some(plaintext@)
        },
{
    let cipher = aes_gcm::Aes256Gcm::new(aes_gcm::Key::<aes_gcm::Aes256Gcm>::from_slice(key));
    cipher.encrypt(aes_gcm::Nonce::from_slice(nonce), plaintext).ok()
}

/// Calls `Aes256Gcm::decrypt` of the `aes_gcm` crate with a cipher made from
/// `key`: the plaintext where the tag at the end of `sealed` matches, `None`
/// otherwise.
#[verifier::external_body]
fn open(key: &[u8; 32], nonce: &[u8], sealed: &[u8]) -> (plain: Option<Vec<u8>>)
    requires
        nonce@.len() == NONCE_LEN,
    ensures
        match plain {
            Some(bytes) => aes256_gcm_open(key@, nonce@, sealed@) == Some(bytes@),
            None => aes256_gcm_open(key@, nonce@, sealed@) is None,
        },
{
    let cipher = aes_gcm::Aes256Gcm::new(aes_gcm::Key::<aes_gcm::Aes256Gcm>::from_slice(key));
    cipher.decrypt(aes_gcm::Nonce::from_slice(nonce), sealed).ok()
}

/// Calls `Engine::encode` of the `base64` crate on its `STANDARD` engine.
/// Left out are the inputs whose text would not fit the address space, on
/// which the call panics. Decoding the result gives `bytes` back.
#[verifier::external_body]
fn base64_encode(bytes: &[u8]) -> (text: String)
    requires
        base64_len(bytes@.len() as int) <= usize::MAX,
    ensures
        text@ == base64_standard_encode(bytes@),
        base64_standard_decode(text@) == Some(bytes@),
{
    base64::engine::general_purpose::STANDARD.encode(bytes)
}

/// Calls `Engine::decode` of the `base64` crate on its `STANDARD` engine:
/// the decoded bytes, or `None` where the call reports an error.
#[verifier::external_body]
fn base64_decode(text: &str) -> (bytes: Option<Vec<u8>>)
    ensures
        match bytes {
            Some(b) => base64_standard_decode(text@) == Some(b@),
            None => base64_standard_decode(text@) is None,
        },
{
    base64::engine::general_purpose::STANDARD.decode(text).ok()
}

/// AES-256 in GCM mode, keyed from the configured secret. An encrypted
/// code is the 12-byte nonce followed by the ciphertext and its tag.
#[derive(Clone, Copy)]
pub struct Aes256Cipher {
    key: [u8; 32],
}

impl Aes256Cipher {
    /// The key this cipher encrypts and decrypts under.
    pub closed spec fn key(&self) -> Seq<u8> {
        self.key@
    }

    /// The cipher keyed from the configuration's secret. The configuration
    /// must select AES-256-GCM.
    pub fn new(env: &AppEnv) -> (cipher: Self)
        requires
            env.cipher.alg == Algorithm::Aes256Gcm,
        ensures
            cipher.key() == derived_key(encode_utf8(env.cipher.key@)),
    {
        Aes256Cipher { key: ensure_key_len_for_aes256(env.cipher.key.clone()) }
    }

    /// What `decrypt` yields on `data` under `key`: the plaintext that the
    /// bytes after the nonce open to.
    pub open spec fn opened_under(key: Seq<u8>, data: Seq<u8>) -> Result<Seq<u8>, CipherError> {
        if data.len() < NONCE_LEN {
            Err(CipherError::MissingNonce)
        } else {
            match aes256_gcm_open(
                key,
                data.subrange(0, NONCE_LEN as int),
                data.subrange(NONCE_LEN as int, data.len() as int),
            ) {
                Some(plain) => Ok(plain),
                None => Err(CipherError::AuthenticationFailed),
            }
        }
    }

    /// What `enc_decrypt` yields on `text` under `key`.
    pub open spec fn text_opened_under(key: Seq<u8>, text: Seq<char>) -> Result<
        Seq<char>,
        CipherError,
    > {
        match base64_standard_decode(text) {
            None => Err(CipherError::MalformedEncoding),
            Some(data) => Self::text_of_opened(Self::opened_under(key, data)),
        }
    }

    /// The text that a decrypted value stands for.
    pub open spec fn text_of_opened(opened: Result<Seq<u8>, CipherError>) -> Result<
        Seq<char>,
        CipherError,
    > {
        match opened {
            Err(e) => Err(e),
            Ok(plain) => if valid_utf8(plain) {
                Ok(decode_utf8(plain))
            } else {
                Err(CipherError::NotText)
            },
        }
    }

    /// Whether a plaintext of `len` bytes can be sealed and its encrypted
    /// form encoded as text on this machine.
    pub open spec fn fits(len: int) -> bool {
        len <= MAX_PLAINTEXT_LEN && base64_len(NONCE_LEN + len + TAG_LEN) <= usize::MAX
    }

    /// Tests whether a plaintext of `len` bytes can be sealed and its
    /// encrypted form encoded as text.
    pub fn can_seal_text(len: usize) -> (fits: bool)
        ensures
            fits == Self::fits(len as int),
    {
        if len as u64 > MAX_PLAINTEXT_LEN || len > usize::MAX - NONCE_LEN - TAG_LEN {
            return false;
        }
        let total: usize = len + NONCE_LEN + TAG_LEN;
        let padding: usize = if total % 3 > 0 { 4 } else { 0 };
        total / 3 <= (usize::MAX - padding) / 4
    }

    /// What `encrypt` yields for `plaintext` where it draws `nonce`: the
    /// nonce, then the ciphertext and its tag.
    pub open spec fn sealed_under(key: Seq<u8>, nonce: Seq<u8>, plaintext: Seq<u8>) -> Seq<u8> {
        nonce + aes256_gcm_seal(key, nonce, plaintext)
    }

    /// Encrypts `pin` under the given nonce: the nonce, then the ciphertext
    /// and its tag.
    pub fn encrypt_with_nonce(&self, nonce: &[u8; 12], pin: &[u8]) -> (sealed: Result<
        Vec<u8>,
        CipherError,
    >)
        ensures
            sealed is Ok <==> pin@.len() <= MAX_PLAINTEXT_LEN,
            sealed matches Ok(data) ==> {
                &&& data@ == Self::sealed_under(self.key(), nonce@, pin@)
                &&& data@.len() == NONCE_LEN + pin@.len() + TAG_LEN
                &&& Self::opened_under(self.key(), data@) == Ok::<Seq<u8>, CipherError>(pin@)
            },
            sealed matches Err(e) ==> e == CipherError::PlaintextTooLong,
    {
        match seal(&self.key, nonce, pin) {
            None => Err(CipherError::PlaintextTooLong),
            Some(mut body) => {
                let ghost sealed_body = body@;
                let mut data: Vec<u8> = Vec::new();
                data.extend_from_slice(nonce.as_slice());
                data.append(&mut body);
                assert(data@ =~= nonce@ + sealed_body);
                assert(data@.subrange(0, NONCE_LEN as int) =~= nonce@);
                assert(data@.subrange(NONCE_LEN as int, data@.len() as int) =~= sealed_body);
                Ok(data)
            },
        }
    }

    /// The result of decrypting: the opened plaintext, or the failure to
    /// authenticate.
    pub fn plaintext_of(opened: Option<Vec<u8>>) -> (plain: Result<Vec<u8>, CipherError>)
        ensures
            match opened {
                Some(bytes) => plain == Ok::<Vec<u8>, CipherError>(bytes),
                None => plain == Err::<Vec<u8>, CipherError>(CipherError::AuthenticationFailed),
            },
    {
        match opened {
            Some(bytes) => Ok(bytes),
            None => Err(CipherError::AuthenticationFailed),
        }
    }

    /// The text of a decrypted code, which must be UTF-8.
    pub fn text_of(plain: Vec<u8>) -> (text: Result<String, CipherError>)
        ensures
            match text {
                Ok(s) => valid_utf8(plain@) && s@ == decode_utf8(plain@),
                Err(e) => !valid_utf8(plain@) && e == CipherError::NotText,
            },
    {
        match text_of_utf8(plain) {
            Some(s) => Ok(s),
            None => Err(CipherError::NotText),
        }
    }
}

impl Cipher for Aes256Cipher {
    open spec fn sealable(&self, plaintext: Seq<u8>) -> bool {
        plaintext.len() <= MAX_PLAINTEXT_LEN
    }

    open spec fn opened(&self, data: Seq<u8>) -> Result<Seq<u8>, CipherError> {
        Self::opened_under(self.key(), data)
    }

    open spec fn text_sealable(&self, plaintext: Seq<char>) -> bool {
        Self::fits(encode_utf8(plaintext).len() as int)
    }

    open spec fn text_opened(&self, data: Seq<char>) -> Result<Seq<char>, CipherError> {
        Self::text_opened_under(self.key(), data)
    }

    fn encrypt(&self, pin: &[u8]) -> (sealed: Result<Vec<u8>, CipherError>)
        ensures
            sealed matches Ok(data) ==> data@.len() == NONCE_LEN + pin@.len() + TAG_LEN && data@
                == Self::sealed_under(self.key(), data@.subrange(0, NONCE_LEN as int), pin@),
    {
        let nonce = generate_nonce();
        let sealed = self.encrypt_with_nonce(&nonce, pin);
        proof {
            if sealed is Ok {
                assert(sealed->Ok_0@.subrange(0, NONCE_LEN as int) =~= nonce@);
            }
        }
        sealed
    }

    fn decrypt(&self, data: &[u8]) -> (plain: Result<Vec<u8>, CipherError>) {
        if data.len() < NONCE_LEN {
            return Err(CipherError::MissingNonce);
        }
        let nonce = slice_subrange(data, 0, NONCE_LEN);
        let body = slice_subrange(data, NONCE_LEN, data.len());
        Self::plaintext_of(open(&self.key, nonce, body))
    }

    fn enc_encrypt(&self, data: String) -> (sealed: Result<String, CipherError>)
        ensures
            sealed matches Ok(text) ==> exists|nonce: Seq<u8>|
                nonce.len() == NONCE_LEN && text@ == base64_standard_encode(
                    #[trigger] Self::sealed_under(self.key(), nonce, encode_utf8(data@)),
                ),
    {
        let pin = data.as_str().as_bytes();
        if !Self::can_seal_text(pin.len()) {
            return Err(CipherError::PlaintextTooLong);
        }
        match self.encrypt(pin) {
            Err(e) => Err(e),
            Ok(bytes) => {
                let text = base64_encode(bytes.as_slice());
                proof {
                    encode_utf8_valid_utf8(data@);
                    encode_utf8_decode_utf8(data@);
                }
                Ok(text)
            },
        }
    }

    fn enc_decrypt(&self, data: String) -> (plain: Result<String, CipherError>) {
        match base64_decode(data.as_str()) {
            None => Err(CipherError::MalformedEncoding),
            Some(bytes) => match self.decrypt(bytes.as_slice()) {
                Err(e) => Err(e),
                Ok(plain) => Self::text_of(plain),
            },
        }
    }
}

} // verus!
