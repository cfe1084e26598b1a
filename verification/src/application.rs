use crate::application::env::AppEnv;
use crate::cipher::aes::Aes256Cipher;
use crate::cipher::utils::derived_key;
use crate::cipher::Algorithm;
use vstd::prelude::*;
use vstd::utf8::*;

pub mod database;
pub mod env;
pub mod registry;

verus! {

/// What every request handler is given: the cipher, where the
/// configuration selects one that is supported, and the configuration.
pub struct AppContext {
    pub cipher: Option<Aes256Cipher>,
    pub env: AppEnv,
}

impl AppContext {
    /// The context for `env`. It holds a cipher exactly where `env` selects
    /// AES-256-GCM, keyed from the configured secret.
    pub fn new(env: &AppEnv) -> (context: Self)
        ensures
            context.env == *env,
            context.cipher is Some <==> env.cipher.alg == Algorithm::Aes256Gcm,
            context.cipher matches Some(cipher) ==> cipher.key() == derived_key(
                encode_utf8(env.cipher.key@),
            ),
    {
        let cipher = match env.cipher.alg {
            Algorithm::Aes256Gcm => Some(Aes256Cipher::new(env)),
            _ => None,
        };
        AppContext { cipher, env: env.clone() }
    }
}

} // verus!
