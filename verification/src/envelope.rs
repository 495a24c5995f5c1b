//! The key envelope: two database keys, wrapped under a key that a password derives.

use vstd::prelude::*;
use vstd::utf8::{encode_utf8, encode_utf8_decode_utf8};

use crate::crypto::{
    aes256gcm_open, aes256gcm_opened, aes256gcm_seal, aes256gcm_sealed, argon2id_into, argon2id_key,
    base64_decoded, base64_encoded, decode_base64, encode_base64, fill_random, hash_fault,
    params_fault, CipherFault, Draws, KdfFault, KEY_LEN, MAX_AAD_LEN, MAX_HASH_INPUT_LEN,
    MAX_UNWRAPPED_LANES, MIN_SALT_LEN, NONCE_LEN, SALT_LEN, TAG_LEN,
};
use crate::database::Database;
use crate::messages::{
    INVALID_CIPHERTEXT, INVALID_KEY_LEN, INVALID_NONCE, INVALID_PARAMS, INVALID_SALT,
    MALFORMED_ENVELOPE, NO_RANDOMNESS, SHORT_PASSWORD, SHORT_SALT, UNDERIVED_KEY,
    UNREADABLE_ENVELOPE, UNSUPPORTED_KDF, UNSUPPORTED_VERSION, UNUSABLE_CIPHER, UNWRAPPABLE_KEY,
    WRONG_PASSWORD,
};
use crate::secret::{SecretBuffer, SecretBytes};
use crate::text::{decimal, decimal_digits, joined, lemma_utf8_len, result_view, same_text};

verus! {

/// The version of the envelopes that this library writes and reads.
pub const KEY_ENVELOPE_VERSION: u32 = 1;

/// The shortest password, in characters.
pub const MIN_PASSWORD_LEN: usize = 12;

/// The name of the only key derivation that an envelope may ask for.
pub const ARGON2ID: &'static str = "argon2id";

/// The memory cost of a new envelope, in kibibytes.
pub const ARGON2_M_COST_KIB: u32 = 65536;

/// The number of passes of a new envelope.
pub const ARGON2_T_COST: u32 = 3;

/// The number of lanes of a new envelope.
pub const ARGON2_P_COST: u32 = 1;

/// What the wrapped key of the data database is bound to.
pub const DATA_KEY_AAD: &'static str = "FEED:data-key:v1";

/// What the wrapped key of the identities database is bound to.
pub const IDENTITIES_KEY_AAD: &'static str = "FEED:identities-key:v1";

/// How a password becomes a key.
#[derive(Debug)]
pub struct KdfConfig {
    pub algorithm: String,
    pub salt: String,
    pub memory_kib: u32,
    pub iterations: u32,
    pub parallelism: u32,
}

/// A database key, encrypted and authenticated, in base64.
#[derive(Debug)]
pub struct WrappedKey {
    pub nonce: String,
    pub ciphertext: String,
}

/// What the envelope file holds.
#[derive(Debug)]
pub struct KeyEnvelope {
    pub version: u32,
    pub kdf: KdfConfig,
    pub data_key: WrappedKey,
    pub identities_key: WrappedKey,
}

/// What a [`KdfConfig`] stands for.
pub ghost struct KdfConfigView {
    pub algorithm: Seq<char>,
    pub salt: Seq<char>,
    pub memory_kib: u32,
    pub iterations: u32,
    pub parallelism: u32,
}

/// What a [`WrappedKey`] stands for.
pub ghost struct WrappedKeyView {
    pub nonce: Seq<char>,
    pub ciphertext: Seq<char>,
}

/// What a [`KeyEnvelope`] stands for.
pub ghost struct KeyEnvelopeView {
    pub version: u32,
    pub kdf: KdfConfigView,
    pub data_key: WrappedKeyView,
    pub identities_key: WrappedKeyView,
}

impl View for KdfConfig {
    type V = KdfConfigView;

    open spec fn view(&self) -> KdfConfigView {
        KdfConfigView {
            algorithm: self.algorithm@,
            salt: self.salt@,
            memory_kib: self.memory_kib,
            iterations: self.iterations,
            parallelism: self.parallelism,
        }
    }
}

impl View for WrappedKey {
    type V = WrappedKeyView;

    open spec fn view(&self) -> WrappedKeyView {
        WrappedKeyView { nonce: self.nonce@, ciphertext: self.ciphertext@ }
    }
}

impl View for KeyEnvelope {
    type V = KeyEnvelopeView;

    open spec fn view(&self) -> KeyEnvelopeView {
        KeyEnvelopeView {
            version: self.version,
            kdf: self.kdf@,
            data_key: self.data_key@,
            identities_key: self.identities_key@,
        }
    }
}

/// Refuses a password of fewer than twelve characters.
pub fn validate_password(password: &str) -> (r: Result<(), String>)
    ensures
        result_view(r) == password_verdict(password@),
        r is Ok <==> password@.len() >= 12,
        r matches Err(text) ==> text@ == SHORT_PASSWORD@,
{
    if password.unicode_len() < MIN_PASSWORD_LEN {
        return Err(SHORT_PASSWORD.to_owned());
    }
    Ok(())
}

/// What is said of a password.
pub open spec fn password_verdict(password: Seq<char>) -> Result<(), Seq<char>> {
    if password.len() < MIN_PASSWORD_LEN {
        Err(SHORT_PASSWORD@)
    } else {
        Ok(())
    }
}

/// A password is taken just when it has twelve characters or more, whatever they are.
pub proof fn lemma_password_verdict(password: Seq<char>)
    ensures
        password_verdict(password) is Ok <==> password.len() >= 12,
        password_verdict(password) matches Err(text) ==> text == SHORT_PASSWORD@,
{
}

/// What became of `bytes` that the system was asked to fill.
pub fn random_result<const N: usize>(
    bytes: SecretBytes<N>,
    filled: Result<(), String>,
) -> (r: Result<SecretBytes<N>, String>)
    ensures
        result_view(r) == match filled {
            Ok(()) => Ok(bytes@),
            Err(text) => Err(NO_RANDOMNESS@ + text@),
        },
{
    match filled {
        Ok(()) => Ok(bytes),
        Err(text) => Err(joined(NO_RANDOMNESS, text.as_str())),
    }
}

/// What is said where the system gives no random bytes starts in the same way, whatever the reason.
pub(crate) proof fn lemma_no_randomness(reason: Seq<char>)
    ensures
        NO_RANDOMNESS@.is_prefix_of(NO_RANDOMNESS@ + reason),
{
    assert((NO_RANDOMNESS@ + reason).subrange(0, NO_RANDOMNESS@.len() as int) == NO_RANDOMNESS@);
}

/// Asks the system for random bytes, once.
pub(crate) fn draw_bytes<const N: usize>(draws: &mut Draws) -> (r: Result<SecretBytes<N>, String>)
    ensures
        final(draws)@ == old(draws)@.push(final(draws)@.last()),
        match final(draws)@.last() {
            Ok(bytes) => bytes.len() == N && (r matches Ok(drawn) && drawn@ == bytes),
            Err(reason) => r matches Err(text) && text@ == NO_RANDOMNESS@ + reason,
        },
{
    let mut bytes = SecretBytes::<N>::zeroed();
    let filled = fill_random(bytes.as_mut_array(), draws);
    proof {
        bytes.lemma_len();
    }
    random_result(bytes, filled)
}

/// Random bytes of the system, which is asked once: they are what it gave, and there are none just
/// when it gave none.
pub fn random_bytes<const N: usize>() -> (r: Result<SecretBytes<N>, String>)
    ensures
        r matches Ok(bytes) ==> bytes@.len() == N && exists|draws: Draws| #[trigger]
            draws@ == seq![Ok::<Seq<u8>, Seq<char>>(bytes@)],
        r matches Err(text) ==> NO_RANDOMNESS@.is_prefix_of(text@) && exists|
            draws: Draws,
            reason: Seq<char>,
        | #[trigger]
            draws@ == seq![Err::<Seq<u8>, Seq<char>>(reason)] && text@ == #[trigger] (
            NO_RANDOMNESS@ + reason),
{
    let mut draws = Draws::none();
    let r = draw_bytes(&mut draws);
    proof {
        assert(draws@ == seq![draws@.last()]);
        if let Err(reason) = draws@.last() {
            lemma_no_randomness(reason);
        }
    }
    r
}

/// The key that a password and a configuration derive, or why there is none.
pub open spec fn derived_kek(password: Seq<char>, config: KdfConfigView) -> Result<
    Seq<u8>,
    Seq<char>,
> {
    match salt_verdict(config.algorithm, base64_decoded(config.salt)) {
        Err(text) => Err(text),
        Ok(salt) => match (
            params_fault(config.memory_kib, config.iterations, config.parallelism),
            hash_fault(encode_utf8(password), salt),
        ) {
            (Some(fault), _) => Err(INVALID_PARAMS@ + fault),
            (None, Some(fault)) => Err(UNDERIVED_KEY@ + fault),
            (None, None) => Ok(
                argon2id_key(
                    encode_utf8(password),
                    salt,
                    config.memory_kib,
                    config.iterations,
                    config.parallelism,
                ),
            ),
        },
    }
}

/// The key that a password derives is what Argon2id makes of all its bytes, of the salt that the
/// configuration holds, and of its costs. There is one just when the configuration asks for
/// Argon2id, its salt can be read and has eight bytes or more, and Argon2 takes the costs and the
/// lengths.
pub proof fn lemma_derived_kek(password: Seq<char>, config: KdfConfigView, kek: Seq<u8>)
    ensures
        derived_kek(password, config) == Ok::<Seq<u8>, Seq<char>>(kek) <==> {
            &&& config.algorithm == "argon2id"@
            &&& base64_decoded(config.salt) matches Some(salt)
            &&& 8 <= salt.len() <= 0xffff_ffff
            &&& encode_utf8(password).len() <= 0xffff_ffff
            &&& config.memory_kib >= 8
            &&& config.memory_kib >= 8 * config.parallelism
            &&& config.iterations >= 1
            &&& 1 <= config.parallelism <= 0xff_ffff
            &&& kek == argon2id_key(
                encode_utf8(password),
                salt,
                config.memory_kib,
                config.iterations,
                config.parallelism,
            )
        },
{
}

/// What is said where a password derives no key: of the first thing that is wrong with the
/// algorithm, the salt, the costs and the lengths, in this order.
pub proof fn lemma_underived_kek(password: Seq<char>, config: KdfConfigView)
    ensures
        derived_kek(password, config) matches Err(text) ==> if config.algorithm != "argon2id"@ {
            text == UNSUPPORTED_KDF@
        } else {
            match base64_decoded(config.salt) {
                None => text == INVALID_SALT@,
                Some(salt) => if salt.len() < 8 {
                    text == SHORT_SALT@
                } else if config.memory_kib < 8 || config.memory_kib < (8 * config.parallelism)
                    % 0x1_0000_0000 {
                    text == INVALID_PARAMS@ + "memory cost is too small"@
                } else if config.iterations < 1 {
                    text == INVALID_PARAMS@ + "time cost is too small"@
                } else if config.parallelism < 1 {
                    text == INVALID_PARAMS@ + "not enough threads"@
                } else if config.parallelism > 0xff_ffff {
                    text == INVALID_PARAMS@ + "too many threads"@
                } else if encode_utf8(password).len() > 0xffff_ffff {
                    text == UNDERIVED_KEY@ + "password is too long"@
                } else {
                    salt.len() > 0xffff_ffff && text == UNDERIVED_KEY@ + "salt is too long"@
                },
            }
        },
{
}

/// The salt that a configuration asks for, given what its text decodes to.
pub open spec fn salt_verdict(algorithm: Seq<char>, decoded: Option<Seq<u8>>) -> Result<
    Seq<u8>,
    Seq<char>,
> {
    if algorithm != ARGON2ID@ {
        Err(UNSUPPORTED_KDF@)
    } else {
        match decoded {
            None => Err(INVALID_SALT@),
            Some(salt) => if salt.len() < MIN_SALT_LEN {
                Err(SHORT_SALT@)
            } else {
                Ok(salt)
            },
        }
    }
}

/// The salt that a configuration asks for, given what its text decoded to.
pub fn checked_salt(algorithm: &str, decoded: Option<Vec<u8>>) -> (r: Result<Vec<u8>, String>)
    ensures
        result_view(r) == salt_verdict(
            algorithm@,
            match decoded {
                Some(salt) => Some(salt@),
                None => None,
            },
        ),
{
    if !same_text(algorithm, ARGON2ID) {
        return Err(UNSUPPORTED_KDF.to_owned());
    }
    match decoded {
        None => Err(INVALID_SALT.to_owned()),
        Some(salt) => {
            if salt.len() < MIN_SALT_LEN {
                return Err(SHORT_SALT.to_owned());
            }
            Ok(salt)
        },
    }
}

/// The fault of parameters whose eightfold number of lanes is no 32-bit number.
fn wide_lanes_fault(memory_kib: u32, iterations: u32, parallelism: u32) -> (r: &'static str)
    requires
        parallelism > MAX_UNWRAPPED_LANES,
    ensures
        params_fault(memory_kib, iterations, parallelism) == Some(r@),
{
    let eightfold: u64 = (8 * parallelism as u64) % 0x1_0000_0000;
    if memory_kib < 8 || (memory_kib as u64) < eightfold {
        "memory cost is too small"
    } else if iterations < 1 {
        "time cost is too small"
    } else {
        "too many threads"
    }
}

/// What became of a key that Argon2 was asked to derive.
pub fn kdf_result(key: SecretBytes<KEY_LEN>, derived: Result<(), KdfFault>) -> (r: Result<
    SecretBytes<KEY_LEN>,
    String,
>)
    ensures
        result_view(r) == match derived {
            Ok(()) => Ok(key@),
            Err(KdfFault::Params(text)) => Err(INVALID_PARAMS@ + text@),
            Err(KdfFault::Hash(text)) => Err(UNDERIVED_KEY@ + text@),
        },
{
    match derived {
        Ok(()) => Ok(key),
        Err(KdfFault::Params(text)) => Err(joined(INVALID_PARAMS, text.as_str())),
        Err(KdfFault::Hash(text)) => Err(joined(UNDERIVED_KEY, text.as_str())),
    }
}

/// Derives the key that wraps the database keys from a password.
pub fn derive_kek(password: &str, config: &KdfConfig) -> (r: Result<SecretBytes<KEY_LEN>, String>)
    ensures
        result_view(r) == derived_kek(password@, config@),
{
    let salt = match checked_salt(
        config.algorithm.as_str(),
        decode_base64(config.salt.as_str()),
    ) {
        Ok(salt) => salt,
        Err(text) => return Err(text),
    };
    if config.parallelism > MAX_UNWRAPPED_LANES {
        let fault = wide_lanes_fault(config.memory_kib, config.iterations, config.parallelism);
        return Err(joined(INVALID_PARAMS, fault));
    }
    let mut key = SecretBytes::<KEY_LEN>::zeroed();
    let derived = argon2id_into(
        password.as_bytes(),
        salt.as_slice(),
        config.memory_kib,
        config.iterations,
        config.parallelism,
        key.as_mut_array(),
    );
    kdf_result(key, derived)
}

/// The configuration of a new envelope with a given salt.
pub open spec fn fresh_kdf_config(salt: Seq<u8>) -> KdfConfigView {
    KdfConfigView {
        algorithm: ARGON2ID@,
        salt: base64_encoded(salt),
        memory_kib: ARGON2_M_COST_KIB,
        iterations: ARGON2_T_COST,
        parallelism: ARGON2_P_COST,
    }
}

/// The configuration of a new envelope with a given salt.
pub fn kdf_config_with_salt(salt: &[u8; SALT_LEN]) -> (r: KdfConfig)
    ensures
        r@ == fresh_kdf_config(salt@),
        r.algorithm@ == "argon2id"@,
        r.salt@ == base64_encoded(salt@),
        r.memory_kib == 65536,
        r.iterations == 3,
        r.parallelism == 1,
        base64_decoded(r@.salt) == Some(salt@),
        r@.salt.len() == 24,
{
    KdfConfig {
        algorithm: ARGON2ID.to_owned(),
        salt: encode_base64(salt.as_slice()),
        memory_kib: ARGON2_M_COST_KIB,
        iterations: ARGON2_T_COST,
        parallelism: ARGON2_P_COST,
    }
}

/// The configuration of a new envelope, with a salt that the system is asked for.
pub(crate) fn draw_kdf_config(draws: &mut Draws) -> (r: Result<KdfConfig, String>)
    ensures
        final(draws)@ == old(draws)@.push(final(draws)@.last()),
        match final(draws)@.last() {
            Ok(salt) => {
                &&& salt.len() == SALT_LEN
                &&& r matches Ok(config)
                &&& config@ == fresh_kdf_config(salt)
                &&& base64_decoded(config@.salt) == Some(salt)
                &&& config@.salt.len() == 24
            },
            Err(reason) => r matches Err(text) && text@ == NO_RANDOMNESS@ + reason,
        },
{
    match draw_bytes::<SALT_LEN>(draws) {
        Ok(salt) => Ok(kdf_config_with_salt(salt.as_array())),
        Err(text) => Err(text),
    }
}

/// The configuration of a new envelope with a random salt: it is what the system gave when it was
/// asked, once.
pub fn new_kdf_config() -> (r: Result<KdfConfig, String>)
    ensures
        r matches Ok(config) ==> {
            &&& base64_decoded(config@.salt) matches Some(salt)
            &&& salt.len() == SALT_LEN
            &&& config@ == fresh_kdf_config(salt)
            &&& config@.salt.len() == 24
            &&& exists|draws: Draws| #[trigger] draws@ == seq![Ok::<Seq<u8>, Seq<char>>(salt)]
        },
        r matches Err(text) ==> NO_RANDOMNESS@.is_prefix_of(text@) && exists|
            draws: Draws,
            reason: Seq<char>,
        | #[trigger]
            draws@ == seq![Err::<Seq<u8>, Seq<char>>(reason)] && text@ == #[trigger] (
            NO_RANDOMNESS@ + reason),
{
    let mut draws = Draws::none();
    let r = draw_kdf_config(&mut draws);
    proof {
        assert(draws@ == seq![draws@.last()]);
        if let Err(reason) = draws@.last() {
            lemma_no_randomness(reason);
        }
    }
    r
}

/// The key wrapped under `kek` and `nonce`, bound to `aad`.
pub open spec fn wrapped_with(
    kek: Seq<u8>,
    key: Seq<u8>,
    aad: Seq<u8>,
    nonce: Seq<u8>,
) -> WrappedKeyView {
    WrappedKeyView {
        nonce: base64_encoded(nonce),
        ciphertext: base64_encoded(aes256gcm_sealed(kek, nonce, aad, key)),
    }
}

/// The texts of a wrapped key: the ciphertext decodes to the sealed key, which is a tag longer
/// than a key, and both texts have the lengths that base64 gives them.
pub open spec fn wrapped_text(wrapped: WrappedKeyView, sealed: Seq<u8>) -> bool {
    &&& base64_decoded(wrapped.ciphertext) == Some(sealed)
    &&& sealed.len() == KEY_LEN + TAG_LEN
    &&& wrapped.nonce.len() == 16
    &&& wrapped.ciphertext.len() == 64
}

/// What became of a key that was to be encrypted.
pub fn sealed_bytes(sealed: Result<Vec<u8>, CipherFault>) -> (r: Result<Vec<u8>, String>)
    ensures
        result_view(r) == match sealed {
            Ok(bytes) => Ok(bytes@),
            Err(CipherFault::Key) => Err(UNUSABLE_CIPHER@),
            Err(CipherFault::Message) => Err(UNWRAPPABLE_KEY@),
        },
{
    match sealed {
        Ok(bytes) => Ok(bytes),
        Err(CipherFault::Key) => Err(UNUSABLE_CIPHER.to_owned()),
        Err(CipherFault::Message) => Err(UNWRAPPABLE_KEY.to_owned()),
    }
}

/// Wraps a key under another with a given nonce. Unwrapping the outcome gives the key back.
pub fn wrap_key_with_nonce(
    kek: &[u8; KEY_LEN],
    key: &[u8; KEY_LEN],
    aad: &[u8],
    nonce: &[u8; NONCE_LEN],
) -> (r: Result<WrappedKey, String>)
    ensures
        aad@.len() <= MAX_AAD_LEN ==> r is Ok,
        r matches Ok(wrapped) ==> {
            &&& aad@.len() <= MAX_AAD_LEN
            &&& wrapped.nonce@ == base64_encoded(nonce@)
            &&& wrapped.ciphertext@ == base64_encoded(
                aes256gcm_sealed(kek@, nonce@, aad@, key@),
            )
            &&& wrapped@ == wrapped_with(kek@, key@, aad@, nonce@)
            &&& base64_decoded(wrapped@.nonce) == Some(nonce@)
            &&& wrapped_text(wrapped@, aes256gcm_sealed(kek@, nonce@, aad@, key@))
            &&& unwrapped(kek@, wrapped@, aad@) == Ok::<Seq<u8>, Seq<char>>(key@)
        },
        r matches Err(text) ==> text@ == UNWRAPPABLE_KEY@,
{
    match sealed_bytes(aes256gcm_seal(kek, nonce, aad, key)) {
        Ok(ciphertext) => Ok(
            WrappedKey {
                nonce: encode_base64(nonce.as_slice()),
                ciphertext: encode_base64(ciphertext.as_slice()),
            },
        ),
        Err(text) => Err(text),
    }
}

/// Wraps a key under another, with a nonce that the system is asked for. Unwrapping the outcome
/// gives the key back.
pub(crate) fn draw_wrapped_key(
    kek: &[u8; KEY_LEN],
    key: &[u8; KEY_LEN],
    aad: &[u8],
    draws: &mut Draws,
) -> (r: Result<WrappedKey, String>)
    ensures
        final(draws)@ == old(draws)@.push(final(draws)@.last()),
        match final(draws)@.last() {
            Ok(nonce) => {
                &&& nonce.len() == NONCE_LEN
                &&& r is Ok <==> aad@.len() <= MAX_AAD_LEN
                &&& r matches Ok(wrapped) ==> {
                    &&& wrapped@ == wrapped_with(kek@, key@, aad@, nonce)
                    &&& base64_decoded(wrapped@.nonce) == Some(nonce)
                    &&& wrapped_text(wrapped@, aes256gcm_sealed(kek@, nonce, aad@, key@))
                    &&& unwrapped(kek@, wrapped@, aad@) == Ok::<Seq<u8>, Seq<char>>(key@)
                }
                &&& r matches Err(text) ==> text@ == UNWRAPPABLE_KEY@
            },
            Err(reason) => r matches Err(text) && text@ == NO_RANDOMNESS@ + reason,
        },
{
    match draw_bytes::<NONCE_LEN>(draws) {
        Ok(nonce) => wrap_key_with_nonce(kek, key, aad, nonce.as_array()),
        Err(text) => Err(text),
    }
}

/// Wraps a key under another with a random nonce: it is what the system gave when it was asked,
/// once. Unwrapping the outcome gives the key back.
pub fn wrap_key(kek: &[u8; KEY_LEN], key: &[u8; KEY_LEN], aad: &[u8]) -> (r: Result<
    WrappedKey,
    String,
>)
    ensures
        aad@.len() > MAX_AAD_LEN ==> r is Err,
        r matches Ok(wrapped) ==> {
            &&& base64_decoded(wrapped@.nonce) matches Some(nonce)
            &&& nonce.len() == NONCE_LEN
            &&& wrapped@ == wrapped_with(kek@, key@, aad@, nonce)
            &&& wrapped_text(wrapped@, aes256gcm_sealed(kek@, nonce, aad@, key@))
            &&& unwrapped(kek@, wrapped@, aad@) == Ok::<Seq<u8>, Seq<char>>(key@)
            &&& exists|draws: Draws| #[trigger] draws@ == seq![Ok::<Seq<u8>, Seq<char>>(nonce)]
        },
        r matches Err(text) ==> {
            ||| NO_RANDOMNESS@.is_prefix_of(text@) && exists|draws: Draws, reason: Seq<char>|
                #[trigger]
                draws@ == seq![Err::<Seq<u8>, Seq<char>>(reason)] && text@ == #[trigger] (
                NO_RANDOMNESS@ + reason)
            ||| aad@.len() > MAX_AAD_LEN && text@ == UNWRAPPABLE_KEY@
        },
{
    let mut draws = Draws::none();
    let r = draw_wrapped_key(kek, key, aad, &mut draws);
    proof {
        assert(draws@ == seq![draws@.last()]);
        if let Err(reason) = draws@.last() {
            lemma_no_randomness(reason);
        }
    }
    r
}

/// The key that was wrapped, or why it cannot be had.
pub open spec fn unwrapped(kek: Seq<u8>, wrapped: WrappedKeyView, aad: Seq<u8>) -> Result<
    Seq<u8>,
    Seq<char>,
> {
    match wrapping_verdict(base64_decoded(wrapped.nonce), base64_decoded(wrapped.ciphertext)) {
        Err(text) => Err(text),
        Ok((nonce, ciphertext)) => key_verdict(aes256gcm_opened(kek, nonce, aad, ciphertext)),
    }
}

/// The key that is unwrapped is what AES-256-GCM decrypts, under the given key and bound to the
/// given data, and it is given back whole. There is one just when both texts can be read, the nonce
/// has twelve bytes, the decryption is not refused, and the key has thirty-two bytes.
pub proof fn lemma_unwrapped(kek: Seq<u8>, wrapped: WrappedKeyView, aad: Seq<u8>, key: Seq<u8>)
    ensures
        unwrapped(kek, wrapped, aad) == Ok::<Seq<u8>, Seq<char>>(key) <==> {
            &&& base64_decoded(wrapped.nonce) matches Some(nonce)
            &&& nonce.len() == 12
            &&& base64_decoded(wrapped.ciphertext) matches Some(ciphertext)
            &&& aes256gcm_opened(kek, nonce, aad, ciphertext) == Some(key)
            &&& key.len() == 32
        },
        unwrapped(kek, wrapped, aad) matches Err(text) ==> match (
            base64_decoded(wrapped.nonce),
            base64_decoded(wrapped.ciphertext),
        ) {
            (None, _) => text == INVALID_NONCE@,
            (Some(nonce), ciphertext) => if nonce.len() != 12 {
                text == INVALID_NONCE@
            } else {
                match ciphertext {
                    None => text == INVALID_CIPHERTEXT@,
                    Some(sealed) => match aes256gcm_opened(kek, nonce, aad, sealed) {
                        None => text == WRONG_PASSWORD@,
                        Some(_) => text == INVALID_KEY_LEN@,
                    },
                }
            },
        },
{
}

/// The nonce and the ciphertext of a wrapped key, given what their texts decode to.
pub open spec fn wrapping_verdict(
    nonce: Option<Seq<u8>>,
    ciphertext: Option<Seq<u8>>,
) -> Result<(Seq<u8>, Seq<u8>), Seq<char>> {
    match nonce {
        None => Err(INVALID_NONCE@),
        Some(nonce) => if nonce.len() != NONCE_LEN {
            Err(INVALID_NONCE@)
        } else {
            match ciphertext {
                None => Err(INVALID_CIPHERTEXT@),
                Some(ciphertext) => Ok((nonce, ciphertext)),
            }
        },
    }
}

/// The key that was wrapped, given what it decrypts to.
pub open spec fn key_verdict(opened: Option<Seq<u8>>) -> Result<Seq<u8>, Seq<char>> {
    match opened {
        None => Err(WRONG_PASSWORD@),
        Some(key) => if key.len() != KEY_LEN {
            Err(INVALID_KEY_LEN@)
        } else {
            Ok(key)
        },
    }
}

/// A copy of the bytes of a slice, if there are just `N` of them.
fn exact_copy<const N: usize>(bytes: &[u8]) -> (r: Option<SecretBytes<N>>)
    ensures
        match r {
            Some(copy) => bytes@.len() == N && copy@ == bytes@,
            None => bytes@.len() != N,
        },
{
    if bytes.len() != N {
        return None;
    }
    let mut copy = SecretBytes::<N>::zeroed();
    let mut i: usize = 0;
    while i < N
        invariant
            i <= N,
            bytes@.len() == N,
            copy@.len() == N,
            forall|j: int| 0 <= j < i ==> copy@[j] == bytes@[j],
        decreases N - i,
    {
        copy.set(i, bytes[i]);
        i += 1;
    }
    assert(copy@ == bytes@);
    Some(copy)
}

/// The nonce and the ciphertext of a wrapped key, given what their texts decoded to.
pub fn checked_wrapping(nonce: Option<Vec<u8>>, ciphertext: Option<Vec<u8>>) -> (r: Result<
    (SecretBytes<NONCE_LEN>, Vec<u8>),
    String,
>)
    ensures
        result_view(r) == wrapping_verdict(
            match nonce {
                Some(bytes) => Some(bytes@),
                None => None,
            },
            match ciphertext {
                Some(bytes) => Some(bytes@),
                None => None,
            },
        ),
{
    let nonce: SecretBytes<NONCE_LEN> = match nonce {
        None => return Err(INVALID_NONCE.to_owned()),
        Some(bytes) => match exact_copy(bytes.as_slice()) {
            None => return Err(INVALID_NONCE.to_owned()),
            Some(nonce) => nonce,
        },
    };
    match ciphertext {
        None => Err(INVALID_CIPHERTEXT.to_owned()),
        Some(bytes) => Ok((nonce, bytes)),
    }
}

/// The key that was wrapped, given what it decrypted to.
pub fn opened_key(opened: Result<Vec<u8>, CipherFault>) -> (r: Result<
    SecretBytes<KEY_LEN>,
    String,
>)
    ensures
        result_view(r) == match opened {
            Ok(bytes) => key_verdict(Some(bytes@)),
            Err(CipherFault::Message) => key_verdict(None),
            Err(CipherFault::Key) => Err(UNUSABLE_CIPHER@),
        },
{
    let plaintext = match opened {
        Ok(bytes) => SecretBuffer::new(bytes),
        Err(CipherFault::Message) => return Err(WRONG_PASSWORD.to_owned()),
        Err(CipherFault::Key) => return Err(UNUSABLE_CIPHER.to_owned()),
    };
    match exact_copy(plaintext.as_slice()) {
        None => Err(INVALID_KEY_LEN.to_owned()),
        Some(key) => Ok(key),
    }
}

/// Gives back the key that was wrapped under another.
pub fn unwrap_key(kek: &[u8; KEY_LEN], wrapped: &WrappedKey, aad: &[u8]) -> (r: Result<
    SecretBytes<KEY_LEN>,
    String,
>)
    ensures
        result_view(r) == unwrapped(kek@, wrapped@, aad@),
{
    match checked_wrapping(
        decode_base64(wrapped.nonce.as_str()),
        decode_base64(wrapped.ciphertext.as_str()),
    ) {
        Ok((nonce, ciphertext)) => opened_key(
            aes256gcm_open(kek, nonce.as_array(), aad, ciphertext.as_slice()),
        ),
        Err(text) => Err(text),
    }
}

/// What the wrapped key of the data database is bound to, in bytes.
pub open spec fn data_key_aad() -> Seq<u8> {
    encode_utf8(DATA_KEY_AAD@)
}

/// What the wrapped key of the identities database is bound to, in bytes.
pub open spec fn identities_key_aad() -> Seq<u8> {
    encode_utf8(IDENTITIES_KEY_AAD@)
}

/// Both keys are bound to few bytes, and not to the same ones.
pub proof fn lemma_aads()
    ensures
        data_key_aad().len() <= MAX_AAD_LEN,
        identities_key_aad().len() <= MAX_AAD_LEN,
        data_key_aad() != identities_key_aad(),
{
    reveal_strlit("FEED:data-key:v1");
    reveal_strlit("FEED:identities-key:v1");
    lemma_utf8_len(DATA_KEY_AAD@);
    lemma_utf8_len(IDENTITIES_KEY_AAD@);
    assert(DATA_KEY_AAD@[5] == 'd' && IDENTITIES_KEY_AAD@[5] == 'i');
    encode_utf8_decode_utf8(DATA_KEY_AAD@);
    encode_utf8_decode_utf8(IDENTITIES_KEY_AAD@);
}

/// The keys of the two databases.
pub struct StoreKeys {
    pub data: SecretBytes<KEY_LEN>,
    pub identities: SecretBytes<KEY_LEN>,
}

/// What [`StoreKeys`] stand for.
pub ghost struct StoreKeysView {
    pub data: Seq<u8>,
    pub identities: Seq<u8>,
}

impl View for StoreKeys {
    type V = StoreKeysView;

    open spec fn view(&self) -> StoreKeysView {
        StoreKeysView { data: self.data@, identities: self.identities@ }
    }
}

impl StoreKeysView {
    /// The key of a database.
    pub open spec fn key_of(self, database: Database) -> Seq<u8> {
        match database {
            Database::Data => self.data,
            Database::Identities => self.identities,
        }
    }
}

impl StoreKeys {
    /// The key of a database.
    pub fn key_of(&self, database: Database) -> (r: &[u8; KEY_LEN])
        ensures
            r@ == self@.key_of(database),
            database is Data ==> r@ == self.data@,
            database is Identities ==> r@ == self.identities@,
    {
        match database {
            Database::Data => self.data.as_array(),
            Database::Identities => self.identities.as_array(),
        }
    }
}

/// The keys that a password unlocks in an envelope, or why there are none.
pub open spec fn unlocked(password: Seq<char>, envelope: KeyEnvelopeView) -> Result<
    StoreKeysView,
    Seq<char>,
> {
    match derived_kek(password, envelope.kdf) {
        Err(text) => Err(text),
        Ok(kek) => match (
            unwrapped(kek, envelope.data_key, data_key_aad()),
            unwrapped(kek, envelope.identities_key, identities_key_aad()),
        ) {
            (Err(text), _) => Err(text),
            (_, Err(text)) => Err(text),
            (Ok(data), Ok(identities)) => Ok(StoreKeysView { data, identities }),
        },
    }
}

/// A password unlocks an envelope just when both keys can be unwrapped under the key that the
/// password derives with the configuration of the envelope, each bound to its own name. They are
/// then the keys of the data database and of the identities database. Otherwise the derivation, the
/// data key and the identities key are told of in this order.
pub proof fn lemma_unlocked(password: Seq<char>, envelope: KeyEnvelopeView, keys: StoreKeysView)
    ensures
        unlocked(password, envelope) == Ok::<StoreKeysView, Seq<char>>(keys) <==> {
            &&& derived_kek(password, envelope.kdf) matches Ok(kek)
            &&& unwrapped(kek, envelope.data_key, encode_utf8("FEED:data-key:v1"@)) == Ok::<
                Seq<u8>,
                Seq<char>,
            >(keys.data)
            &&& unwrapped(
                kek,
                envelope.identities_key,
                encode_utf8("FEED:identities-key:v1"@),
            ) == Ok::<Seq<u8>, Seq<char>>(keys.identities)
        },
        unlocked(password, envelope) matches Err(text) ==> match derived_kek(
            password,
            envelope.kdf,
        ) {
            Err(underived) => text == underived,
            Ok(kek) => match unwrapped(
                kek,
                envelope.data_key,
                encode_utf8("FEED:data-key:v1"@),
            ) {
                Err(unwrappable) => text == unwrappable,
                Ok(_) => unwrapped(
                    kek,
                    envelope.identities_key,
                    encode_utf8("FEED:identities-key:v1"@),
                ) == Err::<Seq<u8>, Seq<char>>(text),
            },
        },
{
}

/// The envelope is one that this library makes: it has the current version and costs, a salt of
/// the right length, and each key wrapped under the password with a nonce of the right length.
pub open spec fn is_fresh_envelope(
    password: Seq<char>,
    keys: StoreKeysView,
    envelope: KeyEnvelopeView,
) -> bool {
    &&& envelope.version == KEY_ENVELOPE_VERSION
    &&& base64_decoded(envelope.kdf.salt) matches Some(salt)
    &&& salt.len() == SALT_LEN
    &&& envelope.kdf == fresh_kdf_config(salt)
    &&& envelope.kdf.salt.len() == 24
    &&& derived_kek(password, envelope.kdf) matches Ok(kek)
    &&& base64_decoded(envelope.data_key.nonce) matches Some(data_nonce)
    &&& data_nonce.len() == NONCE_LEN
    &&& envelope.data_key == wrapped_with(kek, keys.data, data_key_aad(), data_nonce)
    &&& wrapped_text(
        envelope.data_key,
        aes256gcm_sealed(kek, data_nonce, data_key_aad(), keys.data),
    )
    &&& base64_decoded(envelope.identities_key.nonce) matches Some(identities_nonce)
    &&& identities_nonce.len() == NONCE_LEN
    &&& envelope.identities_key == wrapped_with(
        kek,
        keys.identities,
        identities_key_aad(),
        identities_nonce,
    )
    &&& wrapped_text(
        envelope.identities_key,
        aes256gcm_sealed(kek, identities_nonce, identities_key_aad(), keys.identities),
    )
}

/// The envelope that holds two wrapped keys.
pub fn key_envelope(kdf: KdfConfig, data_key: WrappedKey, identities_key: WrappedKey) -> (r:
    KeyEnvelope)
    ensures
        r@ == (KeyEnvelopeView {
            version: KEY_ENVELOPE_VERSION,
            kdf: kdf@,
            data_key: data_key@,
            identities_key: identities_key@,
        }),
        r.version == 1,
        r.kdf == kdf,
        r.data_key == data_key,
        r.identities_key == identities_key,
{
    KeyEnvelope { version: KEY_ENVELOPE_VERSION, kdf, data_key, identities_key }
}

/// The key that a password derives with the salt and the costs of a new envelope.
pub open spec fn fresh_kek(password: Seq<char>, salt: Seq<u8>) -> Seq<u8> {
    argon2id_key(
        encode_utf8(password),
        salt,
        ARGON2_M_COST_KIB,
        ARGON2_T_COST,
        ARGON2_P_COST,
    )
}

/// The new envelope of two keys, with a given salt, and a given nonce for each key.
pub open spec fn envelope_with(
    password: Seq<char>,
    keys: StoreKeysView,
    salt: Seq<u8>,
    data_nonce: Seq<u8>,
    identities_nonce: Seq<u8>,
) -> KeyEnvelopeView {
    let kek = fresh_kek(password, salt);
    KeyEnvelopeView {
        version: KEY_ENVELOPE_VERSION,
        kdf: fresh_kdf_config(salt),
        data_key: wrapped_with(kek, keys.data, data_key_aad(), data_nonce),
        identities_key: wrapped_with(
            kek,
            keys.identities,
            identities_key_aad(),
            identities_nonce,
        ),
    }
}

/// A new envelope holds nothing but its version, how the password becomes a key, and the two keys,
/// each encrypted with AES-256-GCM under the key that Argon2id makes of the password and the salt,
/// with its own nonce and bound to its own name.
pub proof fn lemma_envelope_with(
    password: Seq<char>,
    keys: StoreKeysView,
    salt: Seq<u8>,
    data_nonce: Seq<u8>,
    identities_nonce: Seq<u8>,
)
    ensures
        ({
            let envelope = envelope_with(password, keys, salt, data_nonce, identities_nonce);
            let kek = argon2id_key(encode_utf8(password), salt, 65536, 3, 1);
            &&& envelope.version == 1
            &&& envelope.kdf.algorithm == "argon2id"@
            &&& envelope.kdf.salt == base64_encoded(salt)
            &&& envelope.kdf.memory_kib == 65536
            &&& envelope.kdf.iterations == 3
            &&& envelope.kdf.parallelism == 1
            &&& envelope.data_key.nonce == base64_encoded(data_nonce)
            &&& envelope.data_key.ciphertext == base64_encoded(
                aes256gcm_sealed(kek, data_nonce, encode_utf8("FEED:data-key:v1"@), keys.data),
            )
            &&& envelope.identities_key.nonce == base64_encoded(identities_nonce)
            &&& envelope.identities_key.ciphertext == base64_encoded(
                aes256gcm_sealed(
                    kek,
                    identities_nonce,
                    encode_utf8("FEED:identities-key:v1"@),
                    keys.identities,
                ),
            )
        }),
{
}

/// Wraps the keys of the two databases under a password, with a given salt, and a given nonce for
/// each key. The same password unlocks the envelope, and gives the same keys back. This fails just
/// on a password of more bytes than Argon2 takes.
pub fn key_envelope_with(
    password: &str,
    data_key: &[u8; KEY_LEN],
    identities_key: &[u8; KEY_LEN],
    salt: &[u8; SALT_LEN],
    data_nonce: &[u8; NONCE_LEN],
    identities_nonce: &[u8; NONCE_LEN],
) -> (r: Result<KeyEnvelope, String>)
    ensures
        match r {
            Ok(envelope) => {
                let keys = StoreKeysView { data: data_key@, identities: identities_key@ };
                &&& encode_utf8(password@).len() <= MAX_HASH_INPUT_LEN
                &&& envelope@ == envelope_with(
                    password@,
                    keys,
                    salt@,
                    data_nonce@,
                    identities_nonce@,
                )
                &&& is_fresh_envelope(password@, keys, envelope@)
                &&& unlocked(password@, envelope@) == Ok::<StoreKeysView, Seq<char>>(keys)
            },
            Err(text) => {
                &&& encode_utf8(password@).len() > MAX_HASH_INPUT_LEN
                &&& text@ == UNDERIVED_KEY@ + "password is too long"@
            },
        },
{
    proof {
        lemma_aads();
    }
    let kdf = kdf_config_with_salt(salt);
    let kek = match derive_kek(password, &kdf) {
        Ok(kek) => kek,
        Err(text) => return Err(text),
    };
    let data = match wrap_key_with_nonce(
        kek.as_array(),
        data_key,
        DATA_KEY_AAD.as_bytes(),
        data_nonce,
    ) {
        Ok(wrapped) => wrapped,
        Err(text) => return Err(text),
    };
    let identities = match wrap_key_with_nonce(
        kek.as_array(),
        identities_key,
        IDENTITIES_KEY_AAD.as_bytes(),
        identities_nonce,
    ) {
        Ok(wrapped) => wrapped,
        Err(text) => return Err(text),
    };
    Ok(key_envelope(kdf, data, identities))
}

/// Wraps the keys of the two databases under a password. The system is asked for the salt, then for
/// the nonce of the data key, then for that of the identities key. The same password unlocks the
/// envelope, and gives the same keys back. This fails just where the system gives no random bytes,
/// and on a password of more bytes than Argon2 takes.
pub(crate) fn draw_key_envelope(
    password: &str,
    data_key: &[u8; KEY_LEN],
    identities_key: &[u8; KEY_LEN],
    draws: &mut Draws,
) -> (r: Result<KeyEnvelope, String>)
    ensures
        old(draws)@.len() < final(draws)@.len() <= old(draws)@.len() + 3,
        old(draws)@.is_prefix_of(final(draws)@),
        forall|i: int|
            old(draws)@.len() <= i < final(draws)@.len() - 1 ==> #[trigger] final(draws)@[i] is Ok,
        r matches Ok(envelope) ==> {
            let keys = StoreKeysView { data: data_key@, identities: identities_key@ };
            let n = old(draws)@.len() as int;
            &&& final(draws)@.len() == n + 3
            &&& base64_decoded(envelope@.kdf.salt) matches Some(salt)
            &&& base64_decoded(envelope@.data_key.nonce) matches Some(data_nonce)
            &&& base64_decoded(envelope@.identities_key.nonce) matches Some(identities_nonce)
            &&& final(draws)@[n] == Ok::<Seq<u8>, Seq<char>>(salt)
            &&& final(draws)@[n + 1] == Ok::<Seq<u8>, Seq<char>>(data_nonce)
            &&& final(draws)@[n + 2] == Ok::<Seq<u8>, Seq<char>>(identities_nonce)
            &&& envelope@ == envelope_with(password@, keys, salt, data_nonce, identities_nonce)
            &&& is_fresh_envelope(password@, keys, envelope@)
            &&& unlocked(password@, envelope@) == Ok::<StoreKeysView, Seq<char>>(keys)
        },
        r matches Err(text) ==> match final(draws)@.last() {
            Ok(_) => {
                &&& encode_utf8(password@).len() > MAX_HASH_INPUT_LEN
                &&& text@ == UNDERIVED_KEY@ + "password is too long"@
            },
            Err(reason) => text@ == NO_RANDOMNESS@ + reason,
        },
        encode_utf8(password@).len() > MAX_HASH_INPUT_LEN ==> r is Err,
{
    proof {
        lemma_aads();
    }
    let kdf = match draw_kdf_config(draws) {
        Ok(kdf) => kdf,
        Err(text) => return Err(text),
    };
    let kek = match derive_kek(password, &kdf) {
        Ok(kek) => kek,
        Err(text) => return Err(text),
    };
    let data = match draw_wrapped_key(kek.as_array(), data_key, DATA_KEY_AAD.as_bytes(), draws) {
        Ok(wrapped) => wrapped,
        Err(text) => return Err(text),
    };
    let identities = match draw_wrapped_key(
        kek.as_array(),
        identities_key,
        IDENTITIES_KEY_AAD.as_bytes(),
        draws,
    ) {
        Ok(wrapped) => wrapped,
        Err(text) => return Err(text),
    };
    Ok(key_envelope(kdf, data, identities))
}

/// Wraps the keys of the two databases under a password, with a random salt, and a random nonce
/// for each key. The same password unlocks the envelope, and gives the same keys back. The salt
/// and the nonces are what the system gave when it was asked three times; this fails just where it
/// gives no random bytes, and on a password of more bytes than Argon2 takes.
pub fn create_key_envelope(
    password: &str,
    data_key: &[u8; KEY_LEN],
    identities_key: &[u8; KEY_LEN],
) -> (r: Result<KeyEnvelope, String>)
    ensures
        r matches Ok(envelope) ==> {
            let keys = StoreKeysView { data: data_key@, identities: identities_key@ };
            &&& is_fresh_envelope(password@, keys, envelope@)
            &&& unlocked(password@, envelope@) == Ok::<StoreKeysView, Seq<char>>(keys)
            &&& base64_decoded(envelope@.kdf.salt) matches Some(salt)
            &&& base64_decoded(envelope@.data_key.nonce) matches Some(data_nonce)
            &&& base64_decoded(envelope@.identities_key.nonce) matches Some(identities_nonce)
            &&& envelope@ == envelope_with(password@, keys, salt, data_nonce, identities_nonce)
            &&& exists|draws: Draws| #[trigger]
                draws@ == seq![
                    Ok::<Seq<u8>, Seq<char>>(salt),
                    Ok(data_nonce),
                    Ok(identities_nonce),
                ]
        },
        r matches Err(text) ==> {
            ||| NO_RANDOMNESS@.is_prefix_of(text@) && exists|draws: Draws, reason: Seq<char>|
                #[trigger]
                draws@.last() == Err::<Seq<u8>, Seq<char>>(reason) && 1 <= draws@.len() <= 3
                    && text@ == #[trigger] (NO_RANDOMNESS@ + reason)
            ||| {
                &&& encode_utf8(password@).len() > MAX_HASH_INPUT_LEN
                &&& text@ == UNDERIVED_KEY@ + "password is too long"@
            }
        },
        encode_utf8(password@).len() > MAX_HASH_INPUT_LEN ==> r is Err,
{
    let mut draws = Draws::none();
    let r = draw_key_envelope(password, data_key, identities_key, &mut draws);
    proof {
        if r is Ok {
            assert(draws@ == seq![draws@[0], draws@[1], draws@[2]]);
        } else if let Err(reason) = draws@.last() {
            lemma_no_randomness(reason);
        }
    }
    r
}

/// Unlocks the keys of an envelope with a password.
pub fn unlock_keys(password: &str, envelope: &KeyEnvelope) -> (r: Result<StoreKeys, String>)
    ensures
        result_view(r) == unlocked(password@, envelope@),
{
    let kek = match derive_kek(password, &envelope.kdf) {
        Ok(kek) => kek,
        Err(text) => return Err(text),
    };
    let data = match unwrap_key(kek.as_array(), &envelope.data_key, DATA_KEY_AAD.as_bytes()) {
        Ok(key) => key,
        Err(text) => return Err(text),
    };
    let identities = match unwrap_key(
        kek.as_array(),
        &envelope.identities_key,
        IDENTITIES_KEY_AAD.as_bytes(),
    ) {
        Ok(key) => key,
        Err(text) => return Err(text),
    };
    Ok(StoreKeys { data, identities })
}

/// What reading the envelope file came to.
pub enum EnvelopeRead {
    /// The file could not be read, for this reason.
    Unreadable(String),
    /// The file holds no envelope, for this reason.
    Malformed(String),
    /// The file holds this envelope.
    Parsed(KeyEnvelope),
}

/// The envelope that was read, or why there is none.
pub open spec fn envelope_verdict(read: EnvelopeRead) -> Result<KeyEnvelopeView, Seq<char>> {
    match read {
        EnvelopeRead::Unreadable(reason) => Err(UNREADABLE_ENVELOPE@ + reason@),
        EnvelopeRead::Malformed(reason) => Err(MALFORMED_ENVELOPE@ + reason@ + ")."@),
        EnvelopeRead::Parsed(envelope) => if envelope.version != KEY_ENVELOPE_VERSION {
            Err(UNSUPPORTED_VERSION@ + decimal_digits(envelope.version as nat) + "."@)
        } else {
            Ok(envelope@)
        },
    }
}

/// The envelope that was read, if it was read whole and is of the version this library knows.
pub fn read_key_envelope(read: EnvelopeRead) -> (r: Result<KeyEnvelope, String>)
    ensures
        result_view(r) == envelope_verdict(read),
        match read {
            EnvelopeRead::Unreadable(reason) => r matches Err(text) && text@
                == UNREADABLE_ENVELOPE@ + reason@,
            EnvelopeRead::Malformed(reason) => r matches Err(text) && text@ == MALFORMED_ENVELOPE@
                + reason@ + ")."@,
            EnvelopeRead::Parsed(envelope) => if envelope.version == 1 {
                r == Ok::<KeyEnvelope, String>(envelope)
            } else {
                r matches Err(text) && text@ == UNSUPPORTED_VERSION@ + decimal_digits(
                    envelope.version as nat,
                ) + "."@
            },
        },
{
    match read {
        EnvelopeRead::Unreadable(reason) => Err(joined(UNREADABLE_ENVELOPE, reason.as_str())),
        EnvelopeRead::Malformed(reason) => Err(
            joined(MALFORMED_ENVELOPE, reason.as_str()).concat(")."),
        ),
        EnvelopeRead::Parsed(envelope) => {
            if envelope.version != KEY_ENVELOPE_VERSION {
                let version = decimal(envelope.version);
                return Err(joined(UNSUPPORTED_VERSION, version.as_str()).concat("."));
            }
            Ok(envelope)
        },
    }
}

/// A new envelope is read back as it was written.
pub proof fn lemma_fresh_envelope_is_read(
    password: Seq<char>,
    keys: StoreKeysView,
    envelope: KeyEnvelope,
)
    requires
        is_fresh_envelope(password, keys, envelope@),
    ensures
        envelope_verdict(EnvelopeRead::Parsed(envelope)) == Ok::<KeyEnvelopeView, Seq<char>>(
            envelope@,
        ),
{
}

}
