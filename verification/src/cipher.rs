use vstd::prelude::*;

pub mod aes;
pub mod utils;

verus! {

/// The authenticated-encryption algorithms a configuration may select.
#[derive(Clone, Copy, Debug, PartialEq, Eq, Structural)]
pub enum Algorithm {
    Aes128Gcm,
    Aes256Gcm,
}

/// Why a code could not be encrypted or decrypted. Every failure concerns
/// the one item at hand; none is ever turned into a default value.
#[derive(Clone, Copy, Debug, PartialEq, Eq, Structural)]
pub enum CipherError {
    /// The plaintext is longer than the algorithm can seal.
    PlaintextTooLong,
    /// The text form is not well-formed base64.
    MalformedEncoding,
    /// The input is too short to hold the nonce that precedes a ciphertext.
    MissingNonce,
    /// The authentication tag does not match the ciphertext.
    AuthenticationFailed,
    /// The decrypted bytes are not UTF-8 text.
    NotText,
}

/// Authenticated encryption of code values, in a binary and a text-safe
/// form. An implementation holds no mutable state, so one value may serve
/// any number of callers at once.
pub trait Cipher {
    /// Whether `plaintext` is short enough to be sealed.
    spec fn sealable(&self, plaintext: Seq<u8>) -> bool;

    /// What decrypting `data` yields.
    spec fn opened(&self, data: Seq<u8>) -> Result<Seq<u8>, CipherError>;

    /// Whether the text `plaintext` is short enough to be sealed and encoded.
    spec fn text_sealable(&self, plaintext: Seq<char>) -> bool;

    /// What decoding and decrypting the text `data` yields.
    spec fn text_opened(&self, data: Seq<char>) -> Result<Seq<char>, CipherError>;

    /// Encrypts `pin` under a fresh nonce. Whatever nonce is drawn, the
    /// result decrypts to `pin` again.
    fn encrypt(&self, pin: &[u8]) -> (sealed: Result<Vec<u8>, CipherError>)
        ensures
            sealed is Ok <==> self.sealable(pin@),
            sealed matches Ok(data) ==> self.opened(data@) == Ok::<Seq<u8>, CipherError>(pin@),
            sealed matches Err(e) ==> e == CipherError::PlaintextTooLong,
    ;

    /// Decrypts `data`, or says why it cannot be decrypted.
    fn decrypt(&self, data: &[u8]) -> (plain: Result<Vec<u8>, CipherError>)
        ensures
            match plain {
                Ok(bytes) => self.opened(data@) == Ok::<Seq<u8>, CipherError>(bytes@),
                Err(e) => self.opened(data@) == Err::<Seq<u8>, CipherError>(e),
            },
    ;

    /// Encrypts the text `data` and encodes the result as base64. Whatever
    /// nonce is drawn, the result decrypts to `data` again.
    fn enc_encrypt(&self, data: String) -> (sealed: Result<String, CipherError>)
        ensures
            sealed is Ok <==> self.text_sealable(data@),
            sealed matches Ok(text) ==> self.text_opened(text@) == Ok::<Seq<char>, CipherError>(
                data@,
            ),
            sealed matches Err(e) ==> e == CipherError::PlaintextTooLong,
    ;

    /// Decodes the base64 text `data` and decrypts it to text, or says why
    /// that cannot be done.
    fn enc_decrypt(&self, data: String) -> (plain: Result<String, CipherError>)
        ensures
            match plain {
                Ok(text) => self.text_opened(data@) == Ok::<Seq<char>, CipherError>(text@),
                Err(e) => self.text_opened(data@) == Err::<Seq<char>, CipherError>(e),
            },
    ;
}

} // verus!
