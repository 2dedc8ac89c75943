//! Frames: the unit in which one encrypted message crosses the wire.
//!
//! A frame is a length prefix of eight little-endian bytes that counts all
//! bytes behind it, a type tag, for a file frame a filename field of 256
//! bytes, the digest of the ciphertext, the initialization vector, and the
//! ciphertext.

use crate::encryption::hash::{sha3_256, sha3_256_digest, DIGEST_LEN};
use crate::encryption::hybrid::{
    bytes_equal, decrypt_data, encrypt_with_iv, generate_iv, opened, sealed, IV_LEN, KEY_LEN,
};
use crate::errors::{
    CryptoError, DecryptError, EncryptError, ErrorParsingCiphertext, ErrorReceivingData,
};
use vstd::bytes::{
    lemma_auto_spec_u64_to_from_le_bytes, spec_u64_from_le_bytes, spec_u64_to_le_bytes,
    u64_from_le_bytes, u64_to_le_bytes,
};
use vstd::prelude::*;
use vstd::slice::{slice_subrange, slice_to_vec};

verus! {

/// Type tag of a frame that carries data.
pub const STREAM: u8 = 1;

/// Type tag of a frame that carries a file.
pub const FILE_STREAM: u8 = 2;

/// Number of bytes in the length prefix of a frame.
pub const PREFIX_LEN: usize = 8;

/// Number of bytes in the filename field of a file frame.
pub const FILENAME_LEN: usize = 256;

/// Bytes of a data frame between the length prefix and the ciphertext: the
/// type tag, the digest and the initialization vector.
pub const STREAM_HEADER_LEN: usize = 49;

/// Bytes of a file frame between the length prefix and the ciphertext: the
/// type tag, the filename, the digest and the initialization vector.
pub const FILE_STREAM_HEADER_LEN: usize = 305;

/// A frame that carries data.
#[derive(Debug, PartialEq, Eq)]
pub struct Stream {
    /// Number of bytes that follow the length prefix on the wire.
    pub length: u64,
    /// Type tag.
    pub req_type: u8,
    /// Digest of the encrypted data.
    pub hash: [u8; 32],
    /// Initialization vector under which the data was encrypted.
    pub nonce: [u8; 16],
    /// Encrypted data.
    pub data: Vec<u8>,
}

/// A frame that carries a file.
#[derive(Debug, PartialEq, Eq)]
pub struct FileStream {
    /// Number of bytes that follow the length prefix on the wire.
    pub length: u64,
    /// Type tag.
    pub req_type: u8,
    /// Name of the file, followed by zero bytes up to the size of the field.
    pub filename: [u8; 256],
    /// Digest of the encrypted data.
    pub hash: [u8; 32],
    /// Initialization vector under which the data was encrypted.
    pub nonce: [u8; 16],
    /// Encrypted data.
    pub data: Vec<u8>,
}

/// The bytes of a frame that follow the length prefix.
pub open spec fn frame_body(
    filename: Option<Seq<u8>>,
    hash: Seq<u8>,
    nonce: Seq<u8>,
    data: Seq<u8>,
) -> Seq<u8> {
    match filename {
        None => seq![STREAM] + hash + nonce + data,
        Some(name) => seq![FILE_STREAM] + name + hash + nonce + data,
    }
}

/// A frame on the wire: the length of the body as eight little-endian bytes,
/// then the body, in which the digest is that of the encrypted data.
pub open spec fn frame_bytes(filename: Option<Seq<u8>>, nonce: Seq<u8>, data: Seq<u8>) -> Seq<u8> {
    let body = frame_body(filename, sha3_256_digest(data)@, nonce, data);
    spec_u64_to_le_bytes(body.len() as u64) + body
}

/// The number that the length prefix of a frame declares.
pub open spec fn declared_len(bytes: Seq<u8>) -> u64 {
    spec_u64_from_le_bytes(bytes.subrange(0, PREFIX_LEN as int))
}

/// Number of bytes between the length prefix and the ciphertext in a frame
/// with the given type tag.
pub open spec fn header_len(tag: u8) -> Option<nat> {
    if tag == STREAM {
        Some(STREAM_HEADER_LEN as nat)
    } else if tag == FILE_STREAM {
        Some(FILE_STREAM_HEADER_LEN as nat)
    } else {
        None
    }
}

/// Where the ciphertext of a frame begins.
pub open spec fn data_start(bytes: Seq<u8>) -> int {
    PREFIX_LEN + header_len(bytes[PREFIX_LEN as int]).unwrap()
}

/// The filename field of a file frame.
pub open spec fn frame_filename(bytes: Seq<u8>) -> Seq<u8> {
    bytes.subrange(PREFIX_LEN + 1, PREFIX_LEN + 1 + FILENAME_LEN)
}

/// The digest that a frame carries.
pub open spec fn frame_hash(bytes: Seq<u8>) -> Seq<u8> {
    bytes.subrange(data_start(bytes) - IV_LEN - DIGEST_LEN, data_start(bytes) - IV_LEN)
}

/// The initialization vector that a frame carries.
pub open spec fn frame_nonce(bytes: Seq<u8>) -> Seq<u8> {
    bytes.subrange(data_start(bytes) - IV_LEN, data_start(bytes))
}

/// The ciphertext that a frame carries.
pub open spec fn frame_data(bytes: Seq<u8>) -> Seq<u8> {
    bytes.subrange(data_start(bytes), bytes.len() as int)
}

/// Whether the length prefix, the type tag and the number of bytes of a frame
/// fit together: the prefix counts exactly the bytes behind it, the tag is
/// known, and the fixed fields of a frame with that tag are all there.
pub open spec fn well_framed(bytes: Seq<u8>) -> bool {
    &&& bytes.len() > PREFIX_LEN
    &&& declared_len(bytes) == bytes.len() - PREFIX_LEN
    &&& header_len(bytes[PREFIX_LEN as int]) matches Some(h)
    &&& bytes.len() - PREFIX_LEN >= h
}

/// What is wrong with a frame, if anything.
pub open spec fn frame_fault(bytes: Seq<u8>) -> Option<ErrorParsingCiphertext> {
    if !well_framed(bytes) {
        Some(ErrorParsingCiphertext::Malformed)
    } else if sha3_256_digest(frame_data(bytes))@ != frame_hash(bytes) {
        Some(ErrorParsingCiphertext::IntegrityMismatch)
    } else {
        None
    }
}

/// A name of at most 256 bytes, followed by zero bytes up to 256.
pub open spec fn padded_filename(name: Seq<u8>) -> Seq<u8> {
    name + Seq::new((FILENAME_LEN - name.len()) as nat, |i: int| 0u8)
}

impl Stream {
    /// The frame as it stands on the wire.
    pub open spec fn wire(&self) -> Seq<u8> {
        spec_u64_to_le_bytes(self.length) + seq![self.req_type] + self.hash@ + self.nonce@
            + self.data@
    }

    /// The length prefix counts the bytes behind it, and the tag is that of a
    /// data frame.
    pub open spec fn framed(&self) -> bool {
        &&& self.req_type == STREAM
        &&& self.length == STREAM_HEADER_LEN + self.data@.len()
    }

    /// The frame is framed as a data frame, and its digest is that of the
    /// encrypted data.
    pub open spec fn wf(&self) -> bool {
        &&& self.framed()
        &&& self.hash@ == sha3_256_digest(self.data@)@
    }

    /// Serializes the fields in wire order.
    pub fn to_bytes(&self) -> (bytes: Vec<u8>)
        ensures
            bytes@ == self.wire(),
    {
        let mut bytes = u64_to_le_bytes(self.length);
        bytes.push(self.req_type);
        bytes.extend_from_slice(self.hash.as_slice());
        bytes.extend_from_slice(self.nonce.as_slice());
        bytes.extend_from_slice(self.data.as_slice());
        bytes
    }
}

impl FileStream {
    /// The frame as it stands on the wire.
    pub open spec fn wire(&self) -> Seq<u8> {
        spec_u64_to_le_bytes(self.length) + seq![self.req_type] + self.filename@ + self.hash@
            + self.nonce@ + self.data@
    }

    /// The length prefix counts the bytes behind it, and the tag is that of a
    /// file frame.
    pub open spec fn framed(&self) -> bool {
        &&& self.req_type == FILE_STREAM
        &&& self.length == FILE_STREAM_HEADER_LEN + self.data@.len()
    }

    /// The frame is framed as a file frame, and its digest is that of the
    /// encrypted data.
    pub open spec fn wf(&self) -> bool {
        &&& self.framed()
        &&& self.hash@ == sha3_256_digest(self.data@)@
    }

    /// Serializes the fields in wire order.
    pub fn to_bytes(&self) -> (bytes: Vec<u8>)
        ensures
            bytes@ == self.wire(),
    {
        let mut bytes = u64_to_le_bytes(self.length);
        bytes.push(self.req_type);
        bytes.extend_from_slice(self.filename.as_slice());
        bytes.extend_from_slice(self.hash.as_slice());
        bytes.extend_from_slice(self.nonce.as_slice());
        bytes.extend_from_slice(self.data.as_slice());
        bytes
    }
}

/// A frame of either kind.
#[derive(Debug, PartialEq, Eq)]
pub enum Packet {
    Stream(Stream),
    FileStream(FileStream),
}

impl Packet {
    /// The frame as it stands on the wire.
    pub open spec fn wire(&self) -> Seq<u8> {
        match self {
            Packet::Stream(s) => s.wire(),
            Packet::FileStream(f) => f.wire(),
        }
    }

    /// The length prefix counts the bytes behind it, and the tag is that of
    /// the kind of frame.
    pub open spec fn framed(&self) -> bool {
        match self {
            Packet::Stream(s) => s.framed(),
            Packet::FileStream(f) => f.framed(),
        }
    }

    /// The frame is framed, and its digest is that of the encrypted data.
    pub open spec fn wf(&self) -> bool {
        match self {
            Packet::Stream(s) => s.wf(),
            Packet::FileStream(f) => f.wf(),
        }
    }

    /// The digest that the frame carries.
    pub open spec fn hash(&self) -> Seq<u8> {
        match self {
            Packet::Stream(s) => s.hash@,
            Packet::FileStream(f) => f.hash@,
        }
    }

    /// The encrypted data that the frame carries.
    pub open spec fn data(&self) -> Seq<u8> {
        match self {
            Packet::Stream(s) => s.data@,
            Packet::FileStream(f) => f.data@,
        }
    }

    /// Whether the digest that the frame carries is that of its encrypted
    /// data.
    pub fn is_intact(&self) -> (intact: bool)
        ensures
            intact <==> self.hash() == sha3_256_digest(self.data())@,
    {
        match self {
            Packet::Stream(s) => {
                let digest = sha3_256(s.data.as_slice());
                bytes_equal(digest.as_slice(), s.hash.as_slice())
            },
            Packet::FileStream(f) => {
                let digest = sha3_256(f.data.as_slice());
                bytes_equal(digest.as_slice(), f.hash.as_slice())
            },
        }
    }
}

/// Copies `N` bytes that start at `offset` into an array.
fn copy_array<const N: usize>(bytes: &[u8], offset: usize) -> (array: [u8; N])
    requires
        offset + N <= bytes@.len(),
    ensures
        array@ == bytes@.subrange(offset as int, offset + N),
{
    let mut array = [0u8; N];
    let len = bytes.len();
    let mut i: usize = 0;
    while i < N
        invariant
            i <= N,
            offset + N <= bytes@.len() == len,
            forall|j: int| 0 <= j < i ==> array@[j] == bytes@[offset + j],
        decreases N - i,
    {
        array[i] = bytes[offset + i];
        i = i + 1;
    }
    array
}

/// Fits a file name into the filename field of a file frame. A name of more
/// than 256 bytes does not fit.
pub fn pad_filename(name: &[u8]) -> (field: Option<[u8; 256]>)
    ensures
        field is Some <==> name@.len() <= FILENAME_LEN,
        field matches Some(f) ==> f@ == padded_filename(name@),
{
    if name.len() > FILENAME_LEN {
        return None;
    }
    let mut field = [0u8; 256];
    let mut i: usize = 0;
    while i < name.len()
        invariant
            i <= name@.len() <= FILENAME_LEN,
            forall|j: int| 0 <= j < i ==> field@[j] == name@[j],
            forall|j: int| i <= j < FILENAME_LEN ==> field@[j] == 0u8,
        decreases name@.len() - i,
    {
        field[i] = name[i];
        i = i + 1;
    }
    Some(field)
}

/// Takes one frame apart into its fields, from exactly the bytes it
/// occupies. The digest is taken as it stands, and not compared to anything.
pub fn unframe(bytes: &[u8]) -> (result: Result<Packet, ErrorParsingCiphertext>)
    ensures
        result is Ok <==> well_framed(bytes@),
        result matches Ok(packet) ==> packet.framed() && packet.wire() == bytes@,
        result matches Err(e) ==> e == ErrorParsingCiphertext::Malformed,
{
    let len = bytes.len();
    if len <= PREFIX_LEN {
        return Err(ErrorParsingCiphertext::Malformed);
    }
    let prefix = slice_subrange(bytes, 0, PREFIX_LEN);
    let declared = u64_from_le_bytes(prefix);
    let rest = len - PREFIX_LEN;
    if declared != rest as u64 {
        return Err(ErrorParsingCiphertext::Malformed);
    }
    let tag = bytes[PREFIX_LEN];
    let header = if tag == STREAM {
        STREAM_HEADER_LEN
    } else if tag == FILE_STREAM {
        FILE_STREAM_HEADER_LEN
    } else {
        return Err(ErrorParsingCiphertext::Malformed);
    };
    if rest < header {
        return Err(ErrorParsingCiphertext::Malformed);
    }
    let start = PREFIX_LEN + header;
    let data = slice_to_vec(slice_subrange(bytes, start, len));
    let hash: [u8; 32] = copy_array(bytes, start - IV_LEN - DIGEST_LEN);
    let nonce: [u8; 16] = copy_array(bytes, start - IV_LEN);
    proof {
        lemma_auto_spec_u64_to_from_le_bytes();
    }
    if tag == STREAM {
        Ok(Packet::Stream(Stream { length: declared, req_type: tag, hash, nonce, data }))
    } else {
        let filename: [u8; 256] = copy_array(bytes, PREFIX_LEN + 1);
        Ok(
            Packet::FileStream(
                FileStream { length: declared, req_type: tag, filename, hash, nonce, data },
            ),
        )
    }
}

/// Reads one frame from exactly the bytes it occupies, and checks the digest
/// of its ciphertext. Nothing is decrypted.
pub fn parse(bytes: &[u8]) -> (result: Result<Packet, ErrorParsingCiphertext>)
    ensures
        match result {
            Ok(packet) => frame_fault(bytes@) is None && packet.wf() && packet.wire() == bytes@,
            Err(e) => frame_fault(bytes@) == Some(e),
        },
        result is Ok ==> bytes@.len() == PREFIX_LEN + declared_len(bytes@),
{
    let packet = match unframe(bytes) {
        Ok(packet) => packet,
        Err(e) => {
            return Err(e);
        },
    };
    proof {
        lemma_auto_spec_u64_to_from_le_bytes();
        match &packet {
            Packet::Stream(s) => {
                assert(frame_hash(bytes@) =~= s.hash@);
                assert(frame_data(bytes@) =~= s.data@);
            },
            Packet::FileStream(f) => {
                assert(frame_hash(bytes@) =~= f.hash@);
                assert(frame_data(bytes@) =~= f.data@);
            },
        }
    }
    if packet.is_intact() {
        Ok(packet)
    } else {
        Err(ErrorParsingCiphertext::IntegrityMismatch)
    }
}

/// The number of bytes that follow a length prefix, for a transport that
/// reads a frame in two steps. A prefix that is not eight bytes long, that
/// declares fewer bytes than the fixed fields of the shortest frame, or more
/// than the machine can address, is refused.
pub fn frame_length(prefix: &[u8]) -> (result: Result<usize, ErrorParsingCiphertext>)
    ensures
        result is Ok <==> prefix@.len() == PREFIX_LEN && STREAM_HEADER_LEN
            <= spec_u64_from_le_bytes(prefix@) <= usize::MAX,
        result matches Ok(n) ==> n == spec_u64_from_le_bytes(prefix@),
        result matches Err(e) ==> e == ErrorParsingCiphertext::Malformed,
{
    if prefix.len() != PREFIX_LEN {
        return Err(ErrorParsingCiphertext::Malformed);
    }
    let declared = u64_from_le_bytes(prefix);
    if declared < STREAM_HEADER_LEN as u64 || declared > usize::MAX as u64 {
        return Err(ErrorParsingCiphertext::Malformed);
    }
    Ok(declared as usize)
}

/// The bytes of a filename field that may be absent.
pub open spec fn field_of(filename: Option<[u8; 256]>) -> Option<Seq<u8>> {
    match filename {
        Some(f) => Some(f@),
        None => None,
    }
}

/// A frame laid out by [`frame_bytes`] is well framed, carries the digest of
/// its data, and gives back each field from the place where it was put.
pub proof fn lemma_frame_bytes_fields(filename: Option<Seq<u8>>, nonce: Seq<u8>, data: Seq<u8>)
    requires
        nonce.len() == IV_LEN,
        filename matches Some(name) ==> name.len() == FILENAME_LEN,
        frame_body(filename, sha3_256_digest(data)@, nonce, data).len() <= u64::MAX,
    ensures
        frame_fault(frame_bytes(filename, nonce, data)) is None,
        frame_bytes(filename, nonce, data)[PREFIX_LEN as int] == (if filename is Some {
            FILE_STREAM
        } else {
            STREAM
        }),
        filename matches Some(name) ==> frame_filename(frame_bytes(filename, nonce, data)) == name,
        frame_hash(frame_bytes(filename, nonce, data)) == sha3_256_digest(data)@,
        frame_nonce(frame_bytes(filename, nonce, data)) == nonce,
        frame_data(frame_bytes(filename, nonce, data)) == data,
{
    let hash = sha3_256_digest(data)@;
    let body = frame_body(filename, hash, nonce, data);
    let bytes = frame_bytes(filename, nonce, data);
    lemma_auto_spec_u64_to_from_le_bytes();
    assert(bytes.subrange(0, PREFIX_LEN as int) =~= spec_u64_to_le_bytes(body.len() as u64));
    assert(frame_hash(bytes) =~= hash);
    assert(frame_data(bytes) =~= data);
}

/// A received frame is exactly as long as its length prefix says: eight
/// bytes of prefix and the declared number of bytes behind them.
pub proof fn lemma_accepted_frame_has_declared_length(bytes: Seq<u8>)
    requires
        frame_fault(bytes) != Some(ErrorParsingCiphertext::Malformed),
    ensures
        bytes.len() == PREFIX_LEN + declared_len(bytes),
{
}

/// A frame whose ciphertext was replaced by another of the same length, with
/// a different digest, is refused for its digest.
pub proof fn lemma_altered_data_is_refused(
    filename: Option<Seq<u8>>,
    nonce: Seq<u8>,
    data: Seq<u8>,
    altered: Seq<u8>,
)
    requires
        nonce.len() == IV_LEN,
        filename matches Some(name) ==> name.len() == FILENAME_LEN,
        frame_body(filename, sha3_256_digest(data)@, nonce, data).len() <= u64::MAX,
        altered.len() == data.len(),
        sha3_256_digest(altered) != sha3_256_digest(data),
    ensures
        frame_fault(
            frame_bytes(filename, nonce, data).subrange(
                0,
                frame_bytes(filename, nonce, data).len() - data.len(),
            ) + altered,
        ) == Some(ErrorParsingCiphertext::IntegrityMismatch),
{
    let hash = sha3_256_digest(data)@;
    let body = frame_body(filename, hash, nonce, data);
    let bytes = frame_bytes(filename, nonce, data);
    let changed = bytes.subrange(0, bytes.len() - data.len()) + altered;
    lemma_frame_bytes_fields(filename, nonce, data);
    lemma_auto_spec_u64_to_from_le_bytes();
    assert(changed.subrange(0, PREFIX_LEN as int) =~= bytes.subrange(0, PREFIX_LEN as int));
    assert(frame_hash(changed) =~= frame_hash(bytes));
    assert(frame_data(changed) =~= altered);
    assert(sha3_256_digest(altered)@ != sha3_256_digest(data)@) by {
        vstd::array::axiom_array_ext_equal(sha3_256_digest(altered), sha3_256_digest(data));
    }
}

/// Builds the frame that carries `plaintext`, encrypted under `key` with the
/// initialization vector given: a file frame where a filename field is given,
/// a data frame otherwise.
pub fn encode_with_iv(
    key: &[u8],
    iv: &[u8],
    filename: Option<[u8; 256]>,
    plaintext: &[u8],
) -> (result: Result<Vec<u8>, EncryptError>)
    ensures
        key@.len() == KEY_LEN && iv@.len() == IV_LEN ==> (result matches Ok(frame) && frame@
            == frame_bytes(field_of(filename), iv@, sealed(key@, iv@, plaintext@))
            && frame_fault(frame@) is None),
        !(key@.len() == KEY_LEN && iv@.len() == IV_LEN) ==> result == Err::<Vec<u8>, EncryptError>(
            EncryptError::EncryptionError(CryptoError::KeyMaterialInvalid),
        ),
{
    let data = match encrypt_with_iv(key, iv, plaintext) {
        Ok(data) => data,
        Err(e) => {
            return Err(e);
        },
    };
    let hash = sha3_256(data.as_slice());
    let mut body: Vec<u8> = Vec::new();
    match filename {
        Some(field) => {
            body.push(FILE_STREAM);
            body.extend_from_slice(field.as_slice());
        },
        None => {
            body.push(STREAM);
        },
    }
    body.extend_from_slice(hash.as_slice());
    body.extend_from_slice(iv);
    body.extend_from_slice(data.as_slice());
    let mut frame = u64_to_le_bytes(body.len() as u64);
    frame.extend_from_slice(body.as_slice());
    proof {
        lemma_frame_bytes_fields(field_of(filename), iv@, data@);
    }
    Ok(frame)
}

/// Builds the frame that carries `plaintext`, encrypted under `key` with a
/// fresh random initialization vector.
pub fn encode(key: &[u8], filename: Option<[u8; 256]>, plaintext: &[u8]) -> (result: Result<
    Vec<u8>,
    EncryptError,
>)
    ensures
        key@.len() == KEY_LEN ==> (result matches Ok(frame) && frame_fault(frame@) is None
            && exists|iv: Seq<u8>|
            iv.len() == IV_LEN && frame@ == #[trigger] frame_bytes(
                field_of(filename),
                iv,
                sealed(key@, iv, plaintext@),
            )),
        key@.len() != KEY_LEN ==> result == Err::<Vec<u8>, EncryptError>(
            EncryptError::EncryptionError(CryptoError::KeyMaterialInvalid),
        ),
{
    if key.len() != KEY_LEN {
        return Err(EncryptError::EncryptionError(CryptoError::KeyMaterialInvalid));
    }
    let iv = generate_iv();
    encode_with_iv(key, iv.as_slice(), filename, plaintext)
}

/// The filename field of a frame, where its tag is that of a file frame.
pub open spec fn filename_of(bytes: Seq<u8>) -> Option<Seq<u8>> {
    if bytes[PREFIX_LEN as int] == FILE_STREAM {
        Some(frame_filename(bytes))
    } else {
        None
    }
}

/// What decoding of `bytes` under `key` gives: the fault of the frame if it
/// has one, else what decryption of its ciphertext gives, with the filename
/// field where the frame has one.
pub open spec fn decoded(key: Seq<u8>, bytes: Seq<u8>) -> Result<
    (Option<Seq<u8>>, Seq<u8>),
    ErrorReceivingData,
> {
    match frame_fault(bytes) {
        Some(e) => Err(ErrorReceivingData::Parsing(e)),
        None => match opened(key, frame_nonce(bytes), frame_data(bytes)) {
            Ok(plaintext) => Ok((filename_of(bytes), plaintext)),
            Err(e) => Err(ErrorReceivingData::Decryption(e)),
        },
    }
}

/// The result of decoding, with buffers taken as the bytes they hold.
pub open spec fn decoded_view(
    result: Result<(Option<[u8; 256]>, Vec<u8>), ErrorReceivingData>,
) -> Result<(Option<Seq<u8>>, Seq<u8>), ErrorReceivingData> {
    match result {
        Ok((filename, plaintext)) => Ok((field_of(filename), plaintext@)),
        Err(e) => Err(e),
    }
}

/// Reads one frame from exactly the bytes it occupies, checks the digest of
/// its ciphertext, decrypts it under `key` and checks the digest of the
/// plaintext. Gives the filename field, where the frame has one, and the
/// plaintext. What [`encode`] built under the same key comes back as it went
/// in.
pub fn decode(key: &[u8], bytes: &[u8]) -> (result: Result<
    (Option<[u8; 256]>, Vec<u8>),
    ErrorReceivingData,
>)
    ensures
        decoded_view(result) == decoded(key@, bytes@),
        result is Ok ==> bytes@.len() == PREFIX_LEN + declared_len(bytes@),
        forall|filename: Option<Seq<u8>>, iv: Seq<u8>, p: Seq<u8>|
            key@.len() == KEY_LEN && iv.len() == IV_LEN && (filename matches Some(name)
                ==> name.len() == FILENAME_LEN) && bytes@ == #[trigger] frame_bytes(
                filename,
                iv,
                sealed(key@, iv, p),
            ) ==> decoded_view(result) == Ok::<(Option<Seq<u8>>, Seq<u8>), ErrorReceivingData>(
                (filename, p),
            ),
{
    proof {
        lemma_auto_spec_u64_to_from_le_bytes();
        assert(bytes@.len() == bytes.len() <= usize::MAX);
        assert forall|filename: Option<Seq<u8>>, iv: Seq<u8>, p: Seq<u8>|
            key@.len() == KEY_LEN && iv.len() == IV_LEN && (filename matches Some(name)
                ==> name.len() == FILENAME_LEN) && bytes@ == #[trigger] frame_bytes(
                filename,
                iv,
                sealed(key@, iv, p),
            ) implies frame_fault(bytes@) is None && frame_nonce(bytes@) == iv && frame_data(
            bytes@,
        ) == sealed(key@, iv, p) && filename_of(bytes@) == filename by {
            lemma_frame_bytes_fields(filename, iv, sealed(key@, iv, p));
        }
    }
    let packet = match parse(bytes) {
        Ok(packet) => packet,
        Err(e) => {
            return Err(ErrorReceivingData::Parsing(e));
        },
    };
    match packet {
        Packet::Stream(s) => {
            assert(frame_nonce(bytes@) =~= s.nonce@ && frame_data(bytes@) =~= s.data@) by {
                lemma_auto_spec_u64_to_from_le_bytes();
            }
            match decrypt_data(key, s.nonce.as_slice(), s.data.as_slice()) {
                Ok(plaintext) => Ok((None, plaintext)),
                Err(e) => Err(ErrorReceivingData::Decryption(e)),
            }
        },
        Packet::FileStream(f) => {
            assert(frame_nonce(bytes@) =~= f.nonce@ && frame_data(bytes@) =~= f.data@
                && frame_filename(bytes@) =~= f.filename@) by {
                lemma_auto_spec_u64_to_from_le_bytes();
            }
            match decrypt_data(key, f.nonce.as_slice(), f.data.as_slice()) {
                Ok(plaintext) => Ok((Some(f.filename), plaintext)),
                Err(e) => Err(ErrorReceivingData::Decryption(e)),
            }
        },
    }
}

} // verus!
