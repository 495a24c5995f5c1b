//! The cryptographic operations that come from other crates, and what is known of each.

use aes_gcm::aead::{Aead, KeyInit, Nonce, Payload};
use aes_gcm::Aes256Gcm;
use argon2::{Algorithm, Argon2, Params, Version};
use base64::engine::general_purpose::STANDARD;
use base64::Engine;
use vstd::prelude::*;

verus! {

/// The length in bytes of every key.
pub const KEY_LEN: usize = 32;

/// The length in bytes of the salt of a new archive.
pub const SALT_LEN: usize = 16;

/// The length in bytes of the nonce of a wrapped key.
pub const NONCE_LEN: usize = 12;

/// The length in bytes of the tag that AES-256-GCM appends to what it encrypts.
pub const TAG_LEN: usize = 16;

/// The longest associated data, in bytes, that AES-256-GCM takes.
pub const MAX_AAD_LEN: u64 = 0x10_0000_0000;

/// The longest password or salt, in bytes, that Argon2 takes.
pub const MAX_HASH_INPUT_LEN: u64 = 0xffff_ffff;

/// The shortest salt, in bytes, that Argon2 takes.
pub const MIN_SALT_LEN: usize = 8;

/// The most lanes whose eightfold is still a 32-bit number.
pub const MAX_UNWRAPPED_LANES: u32 = 0x1fff_ffff;

/// The most lanes that Argon2 takes.
pub const MAX_LANES: u32 = 0xff_ffff;

/// What the `STANDARD` engine of `base64` encodes `bytes` to.
pub uninterp spec fn base64_encoded(bytes: Seq<u8>) -> Seq<char>;

/// What the `STANDARD` engine of `base64` decodes `text` to, or `None` where it refuses it.
pub uninterp spec fn base64_decoded(text: Seq<char>) -> Option<Seq<u8>>;

/// The 32 bytes that Argon2id, version 0x13, derives from a password and a salt.
pub uninterp spec fn argon2id_key(
    password: Seq<u8>,
    salt: Seq<u8>,
    memory_kib: u32,
    iterations: u32,
    parallelism: u32,
) -> Seq<u8>;

/// What AES-256-GCM encrypts `message` to: the ciphertext, then the tag.
pub uninterp spec fn aes256gcm_sealed(
    key: Seq<u8>,
    nonce: Seq<u8>,
    aad: Seq<u8>,
    message: Seq<u8>,
) -> Seq<u8>;

/// What AES-256-GCM decrypts `sealed` to, or `None` where it refuses it.
pub uninterp spec fn aes256gcm_opened(
    key: Seq<u8>,
    nonce: Seq<u8>,
    aad: Seq<u8>,
    sealed: Seq<u8>,
) -> Option<Seq<u8>>;

/// What is wrong with the cost parameters of Argon2, if anything. The eightfold of the lanes is
/// a 32-bit product.
pub open spec fn params_fault(memory_kib: u32, iterations: u32, parallelism: u32) -> Option<
    Seq<char>,
> {
    if memory_kib < 8 || memory_kib < (8 * parallelism) % 0x1_0000_0000 {
        Some("memory cost is too small"@)
    } else if iterations < 1 {
        Some("time cost is too small"@)
    } else if parallelism < 1 {
        Some("not enough threads"@)
    } else if parallelism > MAX_LANES {
        Some("too many threads"@)
    } else {
        None
    }
}

/// What is wrong with the inputs of Argon2, if anything.
pub open spec fn hash_fault(password: Seq<u8>, salt: Seq<u8>) -> Option<Seq<char>> {
    if password.len() > MAX_HASH_INPUT_LEN {
        Some("password is too long"@)
    } else if salt.len() < MIN_SALT_LEN {
        Some("salt is too short"@)
    } else if salt.len() > MAX_HASH_INPUT_LEN {
        Some("salt is too long"@)
    } else {
        None
    }
}

/// Why Argon2 derived no key, with the words of its error.
pub enum KdfFault {
    /// The cost parameters were refused.
    Params(String),
    /// The password or the salt was refused.
    Hash(String),
}

/// Why AES-256-GCM gave no bytes.
pub enum CipherFault {
    /// The key was refused.
    Key,
    /// The message was refused.
    Message,
}

/// `Engine::encode` of the `STANDARD` engine of `base64`. The text it returns is named
/// [`base64_encoded`]; it has four characters for every three bytes or part of three, and the same
/// engine decodes it to the bytes that were encoded.
/// It panics where the text would be longer than the largest allocation.
#[verifier::external_body]
pub(crate) fn encode_base64(bytes: &[u8]) -> (r: String)
    requires
        (bytes@.len() + 2) / 3 * 4 <= isize::MAX,
    ensures
        r@ == base64_encoded(bytes@),
        r@.len() == (bytes@.len() + 2) / 3 * 4,
        base64_decoded(r@) == Some(bytes@),
{
    STANDARD.encode(bytes)
}

/// `Engine::decode` of the `STANDARD` engine of `base64`. What it returns is named
/// [`base64_decoded`]; `None` stands for each of its errors.
#[verifier::external_body]
pub(crate) fn decode_base64(text: &str) -> (r: Option<Vec<u8>>)
    ensures
        match r {
            Some(bytes) => base64_decoded(text@) == Some(bytes@),
            None => base64_decoded(text@) is None,
        },
{
    STANDARD.decode(text).ok()
}

/// What the system answered, in order, each time it was asked for random bytes: the bytes, or the
/// words of its error. Only [`fill_random`] adds to it, and it cannot be copied, so what it holds
/// was asked for just as many times.
pub struct Draws {
    log: Ghost<Seq<Result<Seq<u8>, Seq<char>>>>,
}

impl View for Draws {
    type V = Seq<Result<Seq<u8>, Seq<char>>>;

    closed spec fn view(&self) -> Seq<Result<Seq<u8>, Seq<char>>> {
        self.log@
    }
}

impl Draws {
    /// Nothing has been asked for.
    pub fn none() -> (r: Self)
        ensures
            r@ == Seq::<Result<Seq<u8>, Seq<char>>>::empty(),
    {
        Draws { log: Ghost(Seq::empty()) }
    }
}

/// `getrandom::fill`: it fills an array with random bytes of the system. Nothing is known of the
/// bytes, nor of whether the system gives any; `Err` holds the words of its error. `draws` keeps
/// what was answered.
#[verifier::external_body]
#[allow(unused_variables)]
pub(crate) fn fill_random<const N: usize>(bytes: &mut [u8; N], draws: &mut Draws) -> (r: Result<
    (),
    String,
>)
    ensures
        match r {
            Ok(()) => final(draws)@ == old(draws)@.push(Ok(final(bytes)@)),
            Err(text) => final(draws)@ == old(draws)@.push(Err(text@)),
        },
{
    getrandom::fill(bytes).map_err(|error| error.to_string())
}

/// `Argon2::hash_password_into`, for Argon2id, version 0x13, and the parameters of `Params::new`.
/// The key it derives is named [`argon2id_key`]. It refuses the parameters and inputs that
/// [`params_fault`] and [`hash_fault`] find fault with, and says so in their words. `Params::new`
/// multiplies the lanes by eight with no check, which is why they are bounded here. It allocates
/// `memory_kib` kibibytes, and does not return where the system has not got them.
#[verifier::external_body]
pub(crate) fn argon2id_into(
    password: &[u8],
    salt: &[u8],
    memory_kib: u32,
    iterations: u32,
    parallelism: u32,
    key: &mut [u8; KEY_LEN],
) -> (r: Result<(), KdfFault>)
    requires
        parallelism <= MAX_UNWRAPPED_LANES,
    ensures
        match r {
            Ok(()) => {
                &&& params_fault(memory_kib, iterations, parallelism) is None
                &&& hash_fault(password@, salt@) is None
                &&& final(key)@ == argon2id_key(
                    password@,
                    salt@,
                    memory_kib,
                    iterations,
                    parallelism,
                )
            },
            Err(KdfFault::Params(text)) => params_fault(memory_kib, iterations, parallelism)
                == Some(text@),
            Err(KdfFault::Hash(text)) => {
                &&& params_fault(memory_kib, iterations, parallelism) is None
                &&& hash_fault(password@, salt@) == Some(text@)
            },
        },
{
    let params = Params::new(memory_kib, iterations, parallelism, Some(key.len()))
        .map_err(|error| KdfFault::Params(error.to_string()))?;
    Argon2::new(Algorithm::Argon2id, Version::V0x13, params)
        .hash_password_into(password, salt, key)
        .map_err(|error| KdfFault::Hash(error.to_string()))
}

/// `Aead::encrypt` of `Aes256Gcm`. The bytes it returns are named [`aes256gcm_sealed`]; they are
/// a tag longer than the message, and decrypt to it under the same key, nonce and associated
/// data. It refuses associated data that is too long, and no key of 32 bytes.
#[verifier::external_body]
pub(crate) fn aes256gcm_seal(
    key: &[u8; KEY_LEN],
    nonce: &[u8; NONCE_LEN],
    aad: &[u8],
    message: &[u8; KEY_LEN],
) -> (r: Result<Vec<u8>, CipherFault>)
    ensures
        match r {
            Ok(sealed) => {
                &&& aad@.len() <= MAX_AAD_LEN
                &&& sealed@ == aes256gcm_sealed(key@, nonce@, aad@, message@)
                &&& sealed@.len() == message@.len() + TAG_LEN
                &&& aes256gcm_opened(key@, nonce@, aad@, sealed@) == Some(message@)
            },
            Err(CipherFault::Message) => aad@.len() > MAX_AAD_LEN,
            Err(CipherFault::Key) => false,
        },
{
    let cipher = Aes256Gcm::new_from_slice(key).map_err(|_| CipherFault::Key)?;
    #[allow(deprecated)]
    let nonce = Nonce::<Aes256Gcm>::from_slice(nonce);
    cipher.encrypt(nonce, Payload { msg: message, aad }).map_err(|_| CipherFault::Message)
}

/// `Aead::decrypt` of `Aes256Gcm`. What it returns is named [`aes256gcm_opened`];
/// `CipherFault::Message` stands for its error. The message is a tag shorter than what was
/// decrypted. It refuses no key of 32 bytes.
#[verifier::external_body]
pub(crate) fn aes256gcm_open(
    key: &[u8; KEY_LEN],
    nonce: &[u8; NONCE_LEN],
    aad: &[u8],
    sealed: &[u8],
) -> (r: Result<Vec<u8>, CipherFault>)
    ensures
        match r {
            Ok(message) => {
                &&& aes256gcm_opened(key@, nonce@, aad@, sealed@) == Some(message@)
                &&& message@.len() + TAG_LEN == sealed@.len()
            },
            Err(CipherFault::Message) => aes256gcm_opened(key@, nonce@, aad@, sealed@) is None,
            Err(CipherFault::Key) => false,
        },
{
    let cipher = Aes256Gcm::new_from_slice(key).map_err(|_| CipherFault::Key)?;
    #[allow(deprecated)]
    let nonce = Nonce::<Aes256Gcm>::from_slice(nonce);
    cipher.decrypt(nonce, Payload { msg: sealed, aad }).map_err(|_| CipherFault::Message)
}

}
