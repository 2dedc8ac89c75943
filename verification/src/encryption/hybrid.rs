//! The symmetric cipher, AES-256 in CBC mode, and the byte-level part of the
//! key agreement: key material, handshake messages and the session key.

use crate::encryption::hash::{sha3_256, sha3_256_digest, DIGEST_LEN};
use crate::errors::{
    CryptoError, DecryptError, EncryptError, ErrorGeneratingKeyPair, OQSEncryptError, ReadPKError,
};
use aes::cipher::{block_padding::Pkcs7, BlockDecryptMut, BlockEncryptMut, KeyIvInit};
use rand::Rng;
use vstd::bytes::{
    lemma_auto_spec_u64_to_from_le_bytes, spec_u64_from_le_bytes, spec_u64_to_le_bytes,
    u64_from_le_bytes, u64_to_le_bytes,
};
use vstd::prelude::*;
use vstd::slice::{slice_subrange, slice_to_vec};

verus! {

/// Number of bytes in a cipher key.
pub const KEY_LEN: usize = 32;

/// Number of bytes in an initialization vector.
pub const IV_LEN: usize = 16;

/// Number of bytes in a cipher block.
pub const BLOCK_LEN: usize = 16;

/// AES-256 in CBC mode over the PKCS#7-padded message, as the `aes` and `cbc`
/// crates compute it for a 32-byte key and a 16-byte initialization vector.
pub uninterp spec fn aes256_cbc_pkcs7_encrypt(
    key: Seq<u8>,
    iv: Seq<u8>,
    message: Seq<u8>,
) -> Seq<u8>;

/// What the `aes` and `cbc` crates recover from a ciphertext under a 32-byte
/// key and a 16-byte initialization vector: the message without its PKCS#7
/// padding, or nothing where the ciphertext is no whole number of blocks or
/// the padding is malformed.
pub uninterp spec fn aes256_cbc_pkcs7_decrypt(
    key: Seq<u8>,
    iv: Seq<u8>,
    ciphertext: Seq<u8>,
) -> Option<Seq<u8>>;

/// Length of a message of `n` bytes once PKCS#7 has padded it to whole blocks:
/// between one byte and a whole block is added.
pub open spec fn padded_len(n: nat) -> nat {
    (n / 16) * 16 + 16
}

/// The bytes of a buffer that may be absent.
pub open spec fn bytes_of(buffer: Option<Vec<u8>>) -> Option<Seq<u8>> {
    match buffer {
        Some(b) => Some(b@),
        None => None,
    }
}

/// `cbc::Encryptor::<aes::Aes256>::new` followed by `encrypt_padded_mut` with
/// `Pkcs7`, in place: the first `message_len` bytes of `buffer` are the
/// message, the rest is room for the padding. The call gives nothing exactly
/// when the buffer cannot hold the padded message; otherwise the ciphertext,
/// which is as long as the padded message. The outside code computes the
/// padded length in machine integers, so that length has to fit one.
#[verifier::external_body]
fn cbc_encrypt_padded(key: &[u8], iv: &[u8], buffer: Vec<u8>, message_len: usize) -> (ciphertext:
    Option<Vec<u8>>)
    requires
        key@.len() == KEY_LEN,
        iv@.len() == IV_LEN,
        message_len + BLOCK_LEN <= usize::MAX,
    ensures
        ciphertext is Some <==> padded_len(message_len as nat) <= buffer@.len(),
        ciphertext is Some ==> bytes_of(ciphertext) == Some(
            aes256_cbc_pkcs7_encrypt(key@, iv@, buffer@.subrange(0, message_len as int)),
        ),
        ciphertext is Some ==> ciphertext->0@.len() == padded_len(message_len as nat),
{
    let mut buffer = buffer;
    let cipher = cbc::Encryptor::<aes::Aes256>::new(key.into(), iv.into());
    match cipher.encrypt_padded_mut::<Pkcs7>(&mut buffer, message_len) {
        Ok(c) => Some(c.to_vec()),
        Err(_) => None,
    }
}

/// `cbc::Decryptor::<aes::Aes256>::new` followed by `decrypt_padded_mut` with
/// `Pkcs7`, on a copy of the ciphertext. Decryption undoes encryption: a
/// ciphertext that is the encryption of some message under the same key and
/// initialization vector gives that message back.
#[verifier::external_body]
fn cbc_decrypt_padded(key: &[u8], iv: &[u8], ciphertext: &[u8]) -> (message: Option<Vec<u8>>)
    requires
        key@.len() == KEY_LEN,
        iv@.len() == IV_LEN,
    ensures
        bytes_of(message) == aes256_cbc_pkcs7_decrypt(key@, iv@, ciphertext@),
        forall|m: Seq<u8>|
            ciphertext@ == #[trigger] aes256_cbc_pkcs7_encrypt(key@, iv@, m) ==> bytes_of(message)
                == Some(m),
{
    let mut buffer = ciphertext.to_vec();
    let cipher = cbc::Decryptor::<aes::Aes256>::new(key.into(), iv.into());
    match cipher.decrypt_padded_mut::<Pkcs7>(&mut buffer) {
        Ok(m) => Some(m.to_vec()),
        Err(_) => None,
    }
}

/// `rand::rng().random()`: one byte from the thread's cryptographically secure
/// generator. Nothing is known of its value.
#[verifier::external_body]
fn random_byte() -> u8 {
    rand::rng().random()
}

/// The ciphertext of `plaintext` under `key` and `iv`: the plaintext is
/// followed by its digest, and the whole is padded and encrypted.
pub open spec fn sealed(key: Seq<u8>, iv: Seq<u8>, plaintext: Seq<u8>) -> Seq<u8> {
    aes256_cbc_pkcs7_encrypt(key, iv, plaintext + sha3_256_digest(plaintext)@)
}

/// Whether a decrypted message ends in the digest of what stands before it.
pub open spec fn carries_own_digest(message: Seq<u8>) -> bool {
    &&& message.len() >= DIGEST_LEN
    &&& sha3_256_digest(message.subrange(0, message.len() - DIGEST_LEN))@ == message.subrange(
        message.len() - DIGEST_LEN,
        message.len() as int,
    )
}

/// What decryption of `ciphertext` under `key` and `iv` gives.
pub open spec fn opened(key: Seq<u8>, iv: Seq<u8>, ciphertext: Seq<u8>) -> Result<
    Seq<u8>,
    DecryptError,
> {
    if key.len() != KEY_LEN || iv.len() != IV_LEN {
        Err(DecryptError::DecryptionError(CryptoError::KeyMaterialInvalid))
    } else {
        match aes256_cbc_pkcs7_decrypt(key, iv, ciphertext) {
            None => Err(DecryptError::DecryptionError(CryptoError::PaddingInvalid)),
            Some(message) => if carries_own_digest(message) {
                Ok(message.subrange(0, message.len() - DIGEST_LEN))
            } else {
                Err(DecryptError::DecryptionError(CryptoError::IntegrityMismatch))
            },
        }
    }
}

/// A fresh initialization vector from the random generator.
pub fn generate_iv() -> (iv: Vec<u8>)
    ensures
        iv@.len() == IV_LEN,
{
    let mut iv: Vec<u8> = Vec::new();
    while iv.len() < IV_LEN
        invariant
            iv@.len() <= IV_LEN,
        decreases IV_LEN - iv@.len(),
    {
        iv.push(random_byte());
    }
    iv
}

/// Encrypts `plaintext` under `key` with the initialization vector given.
pub fn encrypt_with_iv(key: &[u8], iv: &[u8], plaintext: &[u8]) -> (result: Result<
    Vec<u8>,
    EncryptError,
>)
    ensures
        key@.len() == KEY_LEN && iv@.len() == IV_LEN ==> (result matches Ok(c) && c@ == sealed(
            key@,
            iv@,
            plaintext@,
        ) && c@.len() == padded_len(plaintext@.len() + DIGEST_LEN as nat)),
        !(key@.len() == KEY_LEN && iv@.len() == IV_LEN) ==> result == Err::<Vec<u8>, EncryptError>(
            EncryptError::EncryptionError(CryptoError::KeyMaterialInvalid),
        ),
{
    if key.len() != KEY_LEN || iv.len() != IV_LEN {
        return Err(EncryptError::EncryptionError(CryptoError::KeyMaterialInvalid));
    }
    let digest = sha3_256(plaintext);
    let mut buffer: Vec<u8> = Vec::new();
    buffer.extend_from_slice(plaintext);
    buffer.extend_from_slice(digest.as_slice());
    let message_len = buffer.len();
    let ghost message = buffer@;
    assert(message =~= plaintext@ + sha3_256_digest(plaintext@)@);
    let mut room: usize = 0;
    while room < BLOCK_LEN
        invariant
            room <= BLOCK_LEN,
            buffer.len() == message_len + room,
            buffer@.subrange(0, message_len as int) == message,
        decreases BLOCK_LEN - room,
    {
        buffer.push(0u8);
        room = room + 1;
    }
    match cbc_encrypt_padded(key, iv, buffer, message_len) {
        Some(ciphertext) => Ok(ciphertext),
        None => Err(EncryptError::EncryptionError(CryptoError::KeyMaterialInvalid)),
    }
}

/// Encrypts `plaintext` under `key` with a fresh random initialization vector,
/// and gives the vector and the ciphertext.
pub fn encrypt_data(key: &[u8], plaintext: &[u8]) -> (result: Result<
    (Vec<u8>, Vec<u8>),
    EncryptError,
>)
    ensures
        key@.len() == KEY_LEN ==> (result matches Ok((iv, c)) && iv@.len() == IV_LEN && c@
            == sealed(key@, iv@, plaintext@) && c@.len() == padded_len(
            plaintext@.len() + DIGEST_LEN as nat,
        )),
        key@.len() != KEY_LEN ==> result == Err::<(Vec<u8>, Vec<u8>), EncryptError>(
            EncryptError::EncryptionError(CryptoError::KeyMaterialInvalid),
        ),
{
    if key.len() != KEY_LEN {
        return Err(EncryptError::EncryptionError(CryptoError::KeyMaterialInvalid));
    }
    let iv = generate_iv();
    match encrypt_with_iv(key, iv.as_slice(), plaintext) {
        Ok(ciphertext) => Ok((iv, ciphertext)),
        Err(e) => Err(e),
    }
}

/// Parts a decrypted message into what it carries and the digest at its end.
/// A message shorter than a digest has no such parts.
pub fn split_digest(message: &[u8]) -> (parts: Option<(&[u8], &[u8])>)
    ensures
        parts is Some <==> message@.len() >= DIGEST_LEN,
        parts matches Some((body, digest)) ==> body@ == message@.subrange(
            0,
            message@.len() - DIGEST_LEN,
        ) && digest@ == message@.subrange(message@.len() - DIGEST_LEN, message@.len() as int),
{
    let n = message.len();
    if n < DIGEST_LEN {
        return None;
    }
    Some((slice_subrange(message, 0, n - DIGEST_LEN), slice_subrange(message, n - DIGEST_LEN, n)))
}

/// Decrypts `ciphertext` under `key` and `iv`, and checks the digest that ends
/// the decrypted message against the bytes before it.
pub fn decrypt_data(aes_key: &[u8], iv: &[u8], ciphertext: &[u8]) -> (result: Result<
    Vec<u8>,
    DecryptError,
>)
    ensures
        match result {
            Ok(p) => opened(aes_key@, iv@, ciphertext@) == Ok::<Seq<u8>, DecryptError>(p@),
            Err(e) => opened(aes_key@, iv@, ciphertext@) == Err::<Seq<u8>, DecryptError>(e),
        },
        forall|p: Seq<u8>|
            aes_key@.len() == KEY_LEN && iv@.len() == IV_LEN && ciphertext@ == #[trigger] sealed(
                aes_key@,
                iv@,
                p,
            ) ==> (result matches Ok(v) && v@ == p),
{
    if aes_key.len() != KEY_LEN || iv.len() != IV_LEN {
        return Err(DecryptError::DecryptionError(CryptoError::KeyMaterialInvalid));
    }
    match cbc_decrypt_padded(aes_key, iv, ciphertext) {
        None => Err(DecryptError::DecryptionError(CryptoError::PaddingInvalid)),
        Some(message) => {
            let (body, tag) = match split_digest(message.as_slice()) {
                Some(parts) => parts,
                None => {
                    return Err(DecryptError::DecryptionError(CryptoError::IntegrityMismatch));
                },
            };
            let digest = sha3_256(body);
            if bytes_equal(digest.as_slice(), tag) {
                Ok(slice_to_vec(body))
            } else {
                assert forall|p: Seq<u8>|
                    ciphertext@ == #[trigger] sealed(aes_key@, iv@, p) implies false by {
                    assert(body@ =~= p);
                    assert(tag@ =~= sha3_256_digest(p)@);
                }
                Err(DecryptError::DecryptionError(CryptoError::IntegrityMismatch))
            }
        },
    }
}

/// Whether two byte strings are the same.
pub fn bytes_equal(a: &[u8], b: &[u8]) -> (same: bool)
    ensures
        same <==> a@ == b@,
{
    if a.len() != b.len() {
        return false;
    }
    let mut i: usize = 0;
    while i < a.len()
        invariant
            i <= a@.len(),
            a@.len() == b@.len(),
            forall|j: int| 0 <= j < i ==> a@[j] == b@[j],
        decreases a@.len() - i,
    {
        if a[i] != b[i] {
            return false;
        }
        i = i + 1;
    }
    assert(a@ =~= b@);
    true
}

/// Number of bytes in the length prefix of a handshake message.
pub const LENGTH_PREFIX_LEN: usize = 8;

/// Number of bytes in a session key.
pub const SESSION_KEY_LEN: usize = 32;

/// The key-encapsulation scheme of a channel.
#[derive(Debug, Clone, Copy, PartialEq, Eq, Structural)]
pub enum AlgorithmIdentity {
    /// The lattice scheme Kyber at its highest security level.
    Kyber1024,
}

impl AlgorithmIdentity {
    /// Number of bytes in a public key of the scheme.
    pub open spec fn spec_length_public_key(&self) -> usize {
        1568
    }

    /// Number of bytes in a private key of the scheme.
    pub open spec fn spec_length_secret_key(&self) -> usize {
        3168
    }

    /// Number of bytes in a ciphertext of the scheme.
    pub open spec fn spec_length_ciphertext(&self) -> usize {
        1568
    }

    /// Number of bytes in a shared secret of the scheme.
    pub open spec fn spec_length_shared_secret(&self) -> usize {
        32
    }

    /// Number of bytes in a public key of the scheme.
    #[verifier::when_used_as_spec(spec_length_public_key)]
    pub fn length_public_key(&self) -> (n: usize)
        ensures
            n == self.spec_length_public_key(),
    {
        1568
    }

    /// Number of bytes in a private key of the scheme.
    #[verifier::when_used_as_spec(spec_length_secret_key)]
    pub fn length_secret_key(&self) -> (n: usize)
        ensures
            n == self.spec_length_secret_key(),
    {
        3168
    }

    /// Number of bytes in a ciphertext of the scheme.
    #[verifier::when_used_as_spec(spec_length_ciphertext)]
    pub fn length_ciphertext(&self) -> (n: usize)
        ensures
            n == self.spec_length_ciphertext(),
    {
        1568
    }

    /// Number of bytes in a shared secret of the scheme.
    #[verifier::when_used_as_spec(spec_length_shared_secret)]
    pub fn length_shared_secret(&self) -> (n: usize)
        ensures
            n == self.spec_length_shared_secret(),
    {
        32
    }
}

/// The key material that a responder generates for one handshake.
pub struct KeyPair {
    pub public: Vec<u8>,
    pub private: Vec<u8>,
}

impl KeyPair {
    /// Whether both keys have the sizes of the scheme.
    pub open spec fn fits(&self, kem: AlgorithmIdentity) -> bool {
        &&& self.public@.len() == kem.length_public_key()
        &&& self.private@.len() == kem.length_secret_key()
    }

    /// A key pair of the scheme from the bytes of its two keys.
    pub fn new(kem: AlgorithmIdentity, public: Vec<u8>, private: Vec<u8>) -> (result: Result<
        KeyPair,
        ErrorGeneratingKeyPair,
    >)
        ensures
            result is Ok <==> public@.len() == kem.length_public_key() && private@.len()
                == kem.length_secret_key(),
            result matches Ok(pair) ==> pair.public@ == public@ && pair.private@ == private@,
    {
        if public.len() == kem.length_public_key() && private.len() == kem.length_secret_key() {
            Ok(KeyPair { public, private })
        } else {
            Err(ErrorGeneratingKeyPair::ErrorSendingData)
        }
    }
}

/// What an initiator gets from encapsulating against a public key: the
/// ciphertext, which is sent, and the secret, which is not.
pub struct EncapsulatedSecret {
    pub ciphertext: Vec<u8>,
    pub secret: Vec<u8>,
}

impl EncapsulatedSecret {
    /// Whether ciphertext and secret have the sizes of the scheme.
    pub open spec fn fits(&self, kem: AlgorithmIdentity) -> bool {
        &&& self.ciphertext@.len() == kem.length_ciphertext()
        &&& self.secret@.len() == kem.length_shared_secret()
    }
}

/// The session key that both sides derive from the shared secret.
pub open spec fn session_key(secret: Seq<u8>) -> Seq<u8> {
    sha3_256_digest(secret)@
}

/// Derives the session key from a shared secret.
pub fn derive_session_key(secret: &[u8]) -> (key: Vec<u8>)
    ensures
        key@ == session_key(secret@),
        key@.len() == SESSION_KEY_LEN,
{
    sha3_256(secret)
}

/// The initiator's part of the key agreement, from what encapsulation gave:
/// the ciphertext to transmit and the session key. An encapsulation that
/// does not have the sizes of the scheme is refused.
pub fn key_exchange(kem: AlgorithmIdentity, encapsulated: &EncapsulatedSecret) -> (result: Result<
    (Vec<u8>, Vec<u8>),
    OQSEncryptError,
>)
    ensures
        result is Ok <==> encapsulated.fits(kem),
        result matches Ok((ciphertext, key)) ==> ciphertext@ == encapsulated.ciphertext@ && key@
            == session_key(encapsulated.secret@) && key@.len() == SESSION_KEY_LEN,
{
    if encapsulated.ciphertext.len() != kem.length_ciphertext() || encapsulated.secret.len()
        != kem.length_shared_secret() {
        return Err(OQSEncryptError::OQSEncryptError);
    }
    let ciphertext = slice_to_vec(encapsulated.ciphertext.as_slice());
    let key = derive_session_key(encapsulated.secret.as_slice());
    Ok((ciphertext, key))
}

/// The handshake message that carries a public key: its length as eight
/// little-endian bytes, then the key.
pub open spec fn public_key_message_bytes(public: Seq<u8>) -> Seq<u8> {
    spec_u64_to_le_bytes(public.len() as u64) + public
}

/// The handshake message that carries a ciphertext: its length as eight
/// little-endian bytes, then the ciphertext, then the digest of the
/// ciphertext.
pub open spec fn ciphertext_message_bytes(ciphertext: Seq<u8>) -> Seq<u8> {
    spec_u64_to_le_bytes(ciphertext.len() as u64) + ciphertext + sha3_256_digest(ciphertext)@
}

/// Builds the handshake message that carries a public key.
pub fn public_key_message(public: &[u8]) -> (message: Vec<u8>)
    ensures
        message@ == public_key_message_bytes(public@),
{
    let mut message = u64_to_le_bytes(public.len() as u64);
    message.extend_from_slice(public);
    message
}

/// Builds the handshake message that carries a ciphertext and its digest.
pub fn ciphertext_message(ciphertext: &[u8]) -> (message: Vec<u8>)
    ensures
        message@ == ciphertext_message_bytes(ciphertext@),
{
    let digest = sha3_256(ciphertext);
    let mut message = u64_to_le_bytes(ciphertext.len() as u64);
    message.extend_from_slice(ciphertext);
    message.extend_from_slice(digest.as_slice());
    message
}

/// The number that the length prefix of a handshake message declares, where
/// the prefix has its eight bytes and the number fits the machine.
pub fn message_length(prefix: &[u8]) -> (length: Option<usize>)
    ensures
        length is Some <==> prefix@.len() == LENGTH_PREFIX_LEN && spec_u64_from_le_bytes(prefix@)
            <= usize::MAX,
        length matches Some(n) ==> n == spec_u64_from_le_bytes(prefix@),
{
    if prefix.len() != LENGTH_PREFIX_LEN {
        return None;
    }
    let declared = u64_from_le_bytes(prefix);
    if declared > usize::MAX as u64 {
        return None;
    }
    Some(declared as usize)
}

/// Whether `message` is the handshake message that carries a public key of
/// the scheme.
pub open spec fn is_public_key_message(kem: AlgorithmIdentity, message: Seq<u8>) -> bool {
    &&& message.len() == LENGTH_PREFIX_LEN + kem.length_public_key()
    &&& message == public_key_message_bytes(
        message.subrange(LENGTH_PREFIX_LEN as int, message.len() as int),
    )
}

/// The ciphertext inside a handshake message of the right length.
pub open spec fn message_ciphertext(kem: AlgorithmIdentity, message: Seq<u8>) -> Seq<u8> {
    message.subrange(LENGTH_PREFIX_LEN as int, LENGTH_PREFIX_LEN + kem.length_ciphertext())
}

/// Whether `message` is the handshake message that carries a ciphertext of
/// the scheme together with the digest of that ciphertext.
pub open spec fn is_ciphertext_message(kem: AlgorithmIdentity, message: Seq<u8>) -> bool {
    &&& message.len() == LENGTH_PREFIX_LEN + kem.length_ciphertext() + DIGEST_LEN
    &&& message == ciphertext_message_bytes(message_ciphertext(kem, message))
}

/// Takes the public key out of the handshake message that carries it. A
/// message that is not of that form for the scheme is refused.
pub fn read_public_key_message(kem: AlgorithmIdentity, message: &[u8]) -> (result: Result<
    Vec<u8>,
    ReadPKError,
>)
    ensures
        result is Ok <==> is_public_key_message(kem, message@),
        result matches Ok(public) ==> message@ == public_key_message_bytes(public@) && public@
            == message@.subrange(LENGTH_PREFIX_LEN as int, message@.len() as int),
{
    let expected = kem.length_public_key();
    if message.len() != LENGTH_PREFIX_LEN + expected {
        return Err(ReadPKError::ReadPKError);
    }
    let declared = u64_from_le_bytes(slice_subrange(message, 0, LENGTH_PREFIX_LEN));
    let public = slice_subrange(message, LENGTH_PREFIX_LEN, message.len());
    proof {
        lemma_auto_spec_u64_to_from_le_bytes();
        let prefix = message@.subrange(0, LENGTH_PREFIX_LEN as int);
        if declared == expected as u64 {
            assert(message@ =~= public_key_message_bytes(public@));
        } else if message@ == public_key_message_bytes(public@) {
            assert(prefix =~= spec_u64_to_le_bytes(expected as u64));
        }
    }
    if declared != expected as u64 {
        return Err(ReadPKError::ReadPKError);
    }
    Ok(slice_to_vec(public))
}

/// Takes the ciphertext out of the handshake message that carries it, and
/// checks the digest that follows it. A message that is not of that form for
/// the scheme, or whose digest is not that of its ciphertext, is refused.
pub fn read_ciphertext_message(kem: AlgorithmIdentity, message: &[u8]) -> (result: Result<
    Vec<u8>,
    ReadPKError,
>)
    ensures
        result is Ok <==> is_ciphertext_message(kem, message@),
        result matches Ok(ciphertext) ==> message@ == ciphertext_message_bytes(ciphertext@)
            && ciphertext@ == message_ciphertext(kem, message@),
{
    let expected = kem.length_ciphertext();
    if message.len() != LENGTH_PREFIX_LEN + expected + DIGEST_LEN {
        return Err(ReadPKError::ReadPKError);
    }
    let declared = u64_from_le_bytes(slice_subrange(message, 0, LENGTH_PREFIX_LEN));
    let ciphertext = slice_subrange(message, LENGTH_PREFIX_LEN, LENGTH_PREFIX_LEN + expected);
    let carried = slice_subrange(message, LENGTH_PREFIX_LEN + expected, message.len());
    let digest = sha3_256(ciphertext);
    let intact = bytes_equal(digest.as_slice(), carried);
    proof {
        lemma_auto_spec_u64_to_from_le_bytes();
        let prefix = message@.subrange(0, LENGTH_PREFIX_LEN as int);
        if declared == expected as u64 && intact {
            assert(message@ =~= ciphertext_message_bytes(ciphertext@));
        } else if message@ == ciphertext_message_bytes(ciphertext@) {
            assert(prefix =~= spec_u64_to_le_bytes(expected as u64));
            assert(carried@ =~= sha3_256_digest(ciphertext@)@);
        }
    }
    if declared != expected as u64 || !intact {
        return Err(ReadPKError::ReadPKError);
    }
    Ok(slice_to_vec(ciphertext))
}

/// The message built around a public key of the scheme is one that carries
/// a public key, and the key is read back from it.
pub proof fn lemma_public_key_message_reads_back(kem: AlgorithmIdentity, public: Seq<u8>)
    requires
        public.len() == kem.length_public_key(),
    ensures
        is_public_key_message(kem, public_key_message_bytes(public)),
        public_key_message_bytes(public).subrange(
            LENGTH_PREFIX_LEN as int,
            public_key_message_bytes(public).len() as int,
        ) == public,
{
    lemma_auto_spec_u64_to_from_le_bytes();
    let message = public_key_message_bytes(public);
    assert(message.subrange(LENGTH_PREFIX_LEN as int, message.len() as int) =~= public);
}

/// The message built around a ciphertext of the scheme is one that carries a
/// ciphertext with its digest, and the ciphertext is read back from it.
pub proof fn lemma_ciphertext_message_reads_back(kem: AlgorithmIdentity, ciphertext: Seq<u8>)
    requires
        ciphertext.len() == kem.length_ciphertext(),
    ensures
        is_ciphertext_message(kem, ciphertext_message_bytes(ciphertext)),
        message_ciphertext(kem, ciphertext_message_bytes(ciphertext)) == ciphertext,
{
    lemma_auto_spec_u64_to_from_le_bytes();
    let message = ciphertext_message_bytes(ciphertext);
    assert(message_ciphertext(kem, message) =~= ciphertext);
}

/// No handshake message is at once one that carries a public key and one
/// that carries a ciphertext: a peer that waits for the one refuses the
/// other, so two peers in the same role do not get past the key agreement.
pub proof fn lemma_handshake_messages_differ(kem: AlgorithmIdentity, message: Seq<u8>)
    ensures
        !(is_public_key_message(kem, message) && is_ciphertext_message(kem, message)),
{
}

/// Overwrites key material with zero bytes and lets go of it.
pub fn erase(material: &mut Vec<u8>)
    ensures
        final(material)@.len() == 0,
{
    let mut i: usize = 0;
    while i < material.len()
        invariant
            i <= material@.len(),
            forall|j: int| 0 <= j < i ==> material@[j] == 0u8,
        decreases material@.len() - i,
    {
        material[i] = 0u8;
        i = i + 1;
    }
    material.clear();
}

} // verus!
