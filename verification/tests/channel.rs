use pq_channel::encryption::hash::sha3_256;
use pq_channel::encryption::hybrid::{
    ciphertext_message, derive_session_key, erase, key_exchange, message_length,
    public_key_message, read_ciphertext_message, read_public_key_message, AlgorithmIdentity,
    EncapsulatedSecret, KeyPair, SESSION_KEY_LEN,
};
use pq_channel::errors::{
    CryptoError, DecryptError, EncryptError, ErrorGeneratingKeyPair, ErrorGeneratingSecureKeys,
    ErrorParsingCiphertext, ErrorReceivingData, ErrorSendingData, HandShakeError,
    OQSDecryptError, OQSEncryptError, ReadPKError, WritePKError,
};
use pq_channel::packets::{decode, encode};
use pq_channel::{ChannelState, Handler, Role};

const KEM: AlgorithmIdentity = AlgorithmIdentity::Kyber1024;

fn public_key() -> Vec<u8> {
    (0..1568).map(|i| (i % 253) as u8).collect()
}

fn private_key() -> Vec<u8> {
    (0..3168).map(|i| (i % 241) as u8).collect()
}

fn kem_ciphertext() -> Vec<u8> {
    (0..1568).map(|i| (i % 239) as u8).collect()
}

fn shared_secret() -> Vec<u8> {
    (0..32).map(|i| (i * 3) as u8).collect()
}

fn key_pair() -> KeyPair {
    KeyPair::new(KEM, public_key(), private_key()).unwrap()
}

fn encapsulated() -> EncapsulatedSecret {
    EncapsulatedSecret {
        ciphertext: kem_ciphertext(),
        secret: shared_secret(),
    }
}

fn responder() -> Handler {
    Handler::new(Role::Responder, KEM, Some(key_pair())).unwrap()
}

fn initiator() -> Handler {
    Handler::new(Role::Initiator, KEM, None).unwrap()
}

/// Runs the handshake between the two ends in memory. What the key
/// encapsulation would compute is given: the initiator's encapsulation, and
/// the secret that the responder's decapsulation gives.
fn handshake(secret_of_responder: &[u8]) -> (Handler, Handler) {
    let mut server = responder();
    let mut client = initiator();
    let to_client = server.accept().unwrap();
    client.connect().unwrap();
    client.read_key(&to_client).unwrap();
    assert_eq!(client.public_key(), &public_key()[..]);
    let to_server = client.send_key(encapsulated()).unwrap();
    server.read_key(&to_server).unwrap();
    assert_eq!(server.ct(), &kem_ciphertext()[..]);
    assert_eq!(server.private_key(), &private_key()[..]);
    server.establish(secret_of_responder).unwrap();
    (client, server)
}

#[test]
fn test_connect() {
    let mut client = Handler::new(Role::Initiator, KEM, None).expect("Could not create object");
    client
        .connect()
        .expect("Could not stablish a connection with peer");
    client
        .read_key(&public_key_message(&public_key()))
        .expect("Could not stablish a connection with peer");
    client
        .send_key(encapsulated())
        .expect("Could not stablish a connection with peer");
    let buf: &[u8] = &[0; 1000];
    let frame = client.write(buf).expect("Error test");
    assert_eq!(frame.len(), 8 + 49 + 1040);
    assert_eq!(client.state(), ChannelState::Ready);
}

#[test]
fn algorithm_sizes_are_those_of_kyber1024() {
    assert_eq!(KEM.length_public_key(), 1568);
    assert_eq!(KEM.length_secret_key(), 3168);
    assert_eq!(KEM.length_ciphertext(), 1568);
    assert_eq!(KEM.length_shared_secret(), 32);
    assert_eq!(SESSION_KEY_LEN, 32);
}

#[test]
fn key_pair_must_have_the_sizes_of_the_scheme() {
    let pair = KeyPair::new(KEM, public_key(), private_key()).unwrap();
    assert_eq!(pair.public, public_key());
    assert_eq!(pair.private, private_key());
    assert_eq!(
        KeyPair::new(KEM, vec![0; 1567], private_key()).err(),
        Some(ErrorGeneratingKeyPair::ErrorSendingData)
    );
    assert_eq!(
        KeyPair::new(KEM, public_key(), vec![0; 3169]).err(),
        Some(ErrorGeneratingKeyPair::ErrorSendingData)
    );
    assert_eq!(
        KeyPair::new(KEM, vec![], vec![]).err(),
        Some(ErrorGeneratingKeyPair::ErrorSendingData)
    );
}

#[test]
fn session_key_is_digest_of_shared_secret() {
    assert_eq!(
        derive_session_key(&shared_secret()),
        sha3_256(&shared_secret())
    );
    assert_eq!(derive_session_key(&[]).len(), 32);
}

#[test]
fn key_exchange_gives_ciphertext_and_session_key() {
    let (ciphertext, key) = key_exchange(KEM, &encapsulated()).unwrap();
    assert_eq!(ciphertext, kem_ciphertext());
    assert_eq!(key, sha3_256(&shared_secret()));
}

#[test]
fn key_exchange_refuses_encapsulation_of_wrong_size() {
    let short_ciphertext = EncapsulatedSecret {
        ciphertext: vec![0; 1567],
        secret: shared_secret(),
    };
    assert_eq!(
        key_exchange(KEM, &short_ciphertext),
        Err(OQSEncryptError::OQSEncryptError)
    );
    let long_secret = EncapsulatedSecret {
        ciphertext: kem_ciphertext(),
        secret: vec![0; 33],
    };
    assert_eq!(
        key_exchange(KEM, &long_secret),
        Err(OQSEncryptError::OQSEncryptError)
    );
}

#[test]
fn public_key_message_is_length_then_key() {
    let message = public_key_message(&[9, 8, 7]);
    assert_eq!(message, vec![3, 0, 0, 0, 0, 0, 0, 0, 9, 8, 7]);
    let message = public_key_message(&public_key());
    assert_eq!(message.len(), 8 + 1568);
    assert_eq!(&message[..8], &1568u64.to_le_bytes());
    assert_eq!(&message[8..], &public_key()[..]);
}

#[test]
fn ciphertext_message_is_length_then_ciphertext_then_digest() {
    let message = ciphertext_message(&kem_ciphertext());
    assert_eq!(message.len(), 8 + 1568 + 32);
    assert_eq!(&message[..8], &1568u64.to_le_bytes());
    assert_eq!(&message[8..1576], &kem_ciphertext()[..]);
    assert_eq!(&message[1576..], &sha3_256(&kem_ciphertext())[..]);
}

#[test]
fn message_length_reads_the_prefix() {
    assert_eq!(message_length(&1568u64.to_le_bytes()), Some(1568));
    assert_eq!(message_length(&[0u8; 8]), Some(0));
    assert_eq!(message_length(&[0u8; 7]), None);
    assert_eq!(message_length(&[0u8; 9]), None);
    assert_eq!(message_length(&[]), None);
}

#[test]
fn read_public_key_message_inverts_public_key_message() {
    let message = public_key_message(&public_key());
    assert_eq!(read_public_key_message(KEM, &message), Ok(public_key()));
}

#[test]
fn read_public_key_message_refuses_other_messages() {
    let message = public_key_message(&public_key());
    assert_eq!(
        read_public_key_message(KEM, &message[..message.len() - 1]),
        Err(ReadPKError::ReadPKError)
    );
    let mut wrong_prefix = message.clone();
    wrong_prefix[0] ^= 1;
    assert_eq!(
        read_public_key_message(KEM, &wrong_prefix),
        Err(ReadPKError::ReadPKError)
    );
    assert_eq!(
        read_public_key_message(KEM, &public_key_message(&[1, 2, 3])),
        Err(ReadPKError::ReadPKError)
    );
    assert_eq!(
        read_public_key_message(KEM, &ciphertext_message(&kem_ciphertext())),
        Err(ReadPKError::ReadPKError)
    );
}

#[test]
fn read_ciphertext_message_inverts_ciphertext_message() {
    let message = ciphertext_message(&kem_ciphertext());
    assert_eq!(
        read_ciphertext_message(KEM, &message),
        Ok(kem_ciphertext())
    );
}

#[test]
fn read_ciphertext_message_refuses_any_flipped_bit() {
    let message = ciphertext_message(&kem_ciphertext());
    for byte in 0..message.len() {
        let mut altered = message.clone();
        altered[byte] ^= 1 << (byte % 8);
        assert_eq!(
            read_ciphertext_message(KEM, &altered),
            Err(ReadPKError::ReadPKError)
        );
    }
}

#[test]
fn read_ciphertext_message_refuses_other_messages() {
    assert_eq!(
        read_ciphertext_message(KEM, &public_key_message(&public_key())),
        Err(ReadPKError::ReadPKError)
    );
    assert_eq!(
        read_ciphertext_message(KEM, &ciphertext_message(&[1, 2, 3])),
        Err(ReadPKError::ReadPKError)
    );
    assert_eq!(
        read_ciphertext_message(KEM, &[]),
        Err(ReadPKError::ReadPKError)
    );
}

#[test]
fn erase_leaves_nothing() {
    let mut material = vec![1u8, 2, 3];
    erase(&mut material);
    assert!(material.is_empty());
}

#[test]
fn new_responder_needs_a_key_pair_of_the_scheme() {
    let handler = responder();
    assert_eq!(handler.role(), Role::Responder);
    assert_eq!(handler.kem(), AlgorithmIdentity::Kyber1024);
    assert_eq!(handler.state(), ChannelState::Unconnected);
    assert_eq!(handler.public_key(), &public_key()[..]);
    assert_eq!(handler.private_key(), &private_key()[..]);
    assert!(handler.ct().is_empty());
    assert_eq!(
        Handler::new(Role::Responder, KEM, None).err(),
        Some(ErrorGeneratingSecureKeys::ErrorSendingData)
    );
    let misfit = KeyPair {
        public: vec![0; 10],
        private: private_key(),
    };
    assert_eq!(
        Handler::new(Role::Responder, KEM, Some(misfit)).err(),
        Some(ErrorGeneratingSecureKeys::ErrorSendingData)
    );
}

#[test]
fn new_initiator_takes_no_key_pair() {
    let handler = initiator();
    assert_eq!(handler.role(), Role::Initiator);
    assert_eq!(handler.state(), ChannelState::Unconnected);
    assert!(handler.public_key().is_empty());
    assert!(handler.private_key().is_empty());
    assert!(handler.ct().is_empty());
    assert_eq!(
        Handler::new(Role::Initiator, KEM, Some(key_pair())).err(),
        Some(ErrorGeneratingSecureKeys::ErrorSendingData)
    );
}

#[test]
fn handshake_over_loopback_gives_both_ends_the_same_key() {
    let (mut client, mut server) = handshake(&shared_secret());
    assert_eq!(client.state(), ChannelState::Ready);
    assert_eq!(server.state(), ChannelState::Ready);
    assert_eq!(client.ct(), server.ct());
    assert!(client.private_key().is_empty());
    assert!(server.private_key().is_empty());
    assert!(client.public_key().is_empty());
    assert!(server.public_key().is_empty());
    let session_key = derive_session_key(&shared_secret());
    let from_client = client.write(b"to the server").unwrap();
    assert_eq!(
        decode(&session_key, &from_client).unwrap().1,
        b"to the server".to_vec()
    );
    assert_eq!(server.read(&from_client).unwrap(), b"to the server".to_vec());
    let from_server = server.write(b"to the client").unwrap();
    assert_eq!(client.read(&from_server).unwrap(), b"to the client".to_vec());
    let from_outside = encode(&session_key, None, b"same key").unwrap();
    assert_eq!(server.read(&from_outside).unwrap(), b"same key".to_vec());
}

#[test]
fn end_to_end_thousand_zero_bytes_then_peer_goes_away() {
    let (mut client, mut server) = handshake(&shared_secret());
    let frame = client.write(&[0u8; 1000]).unwrap();
    let received = server.read(&frame).unwrap();
    assert_eq!(received.len(), 1000);
    assert_eq!(received, vec![0u8; 1000]);
    client.close();
    assert_eq!(client.state(), ChannelState::Closed);
    server.fault();
    assert_eq!(server.state(), ChannelState::Faulted);
    assert_eq!(
        server.read(&frame),
        Err(ErrorReceivingData::ErrorReceivingData)
    );
    assert_eq!(
        server.write(b"anyone there"),
        Err(ErrorSendingData::ErrorSendingData)
    );
    assert_eq!(
        client.read(&frame),
        Err(ErrorReceivingData::ErrorReceivingData)
    );
    assert_eq!(
        client.write(b"closed"),
        Err(ErrorSendingData::ErrorSendingData)
    );
}

#[test]
fn ends_with_different_secrets_do_not_understand_each_other() {
    let mut other = shared_secret();
    other[0] ^= 1;
    let (mut client, mut server) = handshake(&other);
    let frame = client.write(b"hello").unwrap();
    assert!(matches!(
        server.read(&frame),
        Err(ErrorReceivingData::Decryption(_))
    ));
    assert_eq!(server.state(), ChannelState::Faulted);
}

#[test]
fn read_accepts_file_frames() {
    let (_, mut server) = handshake(&shared_secret());
    let field = pq_channel::packets::pad_filename(b"notes.txt").unwrap();
    let session_key = derive_session_key(&shared_secret());
    let frame = encode(&session_key, Some(field), b"file content").unwrap();
    assert_eq!(server.read(&frame).unwrap(), b"file content".to_vec());
    assert_eq!(server.state(), ChannelState::Ready);
}

#[test]
fn write_and_read_need_a_ready_channel() {
    let mut fresh = initiator();
    assert_eq!(fresh.write(b"x"), Err(ErrorSendingData::ErrorSendingData));
    assert_eq!(
        fresh.read(&[0u8; 100]),
        Err(ErrorReceivingData::ErrorReceivingData)
    );
    assert_eq!(fresh.state(), ChannelState::Unconnected);
    fresh.connect().unwrap();
    assert_eq!(fresh.write(b"x"), Err(ErrorSendingData::ErrorSendingData));
    assert_eq!(
        fresh.read(&[0u8; 100]),
        Err(ErrorReceivingData::ErrorReceivingData)
    );
    assert_eq!(fresh.state(), ChannelState::Handshaking);
}

#[test]
fn faulted_channel_refuses_every_write_and_read() {
    let (mut client, mut server) = handshake(&shared_secret());
    let good = client.write(b"payload").unwrap();
    let mut bad = good.clone();
    let last = bad.len() - 1;
    bad[last] ^= 1;
    assert_eq!(
        server.read(&bad),
        Err(ErrorReceivingData::Parsing(
            ErrorParsingCiphertext::IntegrityMismatch
        ))
    );
    assert_eq!(server.state(), ChannelState::Faulted);
    assert!(server.ct().is_empty());
    for _ in 0..3 {
        assert_eq!(
            server.read(&good),
            Err(ErrorReceivingData::ErrorReceivingData)
        );
        assert_eq!(
            server.write(b"payload"),
            Err(ErrorSendingData::ErrorSendingData)
        );
        assert_eq!(server.state(), ChannelState::Faulted);
    }
    assert_eq!(server.connect(), Err(HandShakeError::HandShakeError));
    assert_eq!(server.accept(), Err(HandShakeError::HandShakeError));
    assert_eq!(
        server.read_key(&ciphertext_message(&kem_ciphertext())),
        Err(ReadPKError::ReadPKError)
    );
    assert_eq!(
        server.send_key(encapsulated()),
        Err(WritePKError::WritePKError)
    );
    assert_eq!(
        server.establish(&shared_secret()),
        Err(OQSDecryptError::OQSDecryptError)
    );
    server.fault();
    assert_eq!(server.state(), ChannelState::Faulted);
}

#[test]
fn malformed_frame_faults_a_ready_channel() {
    let (_, mut server) = handshake(&shared_secret());
    assert_eq!(
        server.read(&[1, 2, 3]),
        Err(ErrorReceivingData::Parsing(ErrorParsingCiphertext::Malformed))
    );
    assert_eq!(server.state(), ChannelState::Faulted);
}

#[test]
fn closed_channel_refuses_everything() {
    let (mut client, _) = handshake(&shared_secret());
    let frame = client.write(b"x").unwrap();
    client.close();
    assert_eq!(client.state(), ChannelState::Closed);
    assert!(client.ct().is_empty());
    assert_eq!(client.write(b"x"), Err(ErrorSendingData::ErrorSendingData));
    assert_eq!(
        client.read(&frame),
        Err(ErrorReceivingData::ErrorReceivingData)
    );
    assert_eq!(client.connect(), Err(HandShakeError::HandShakeError));
    client.fault();
    assert_eq!(client.state(), ChannelState::Closed);
    client.close();
    assert_eq!(client.state(), ChannelState::Closed);
}

#[test]
fn close_is_possible_from_every_state() {
    let mut a = initiator();
    a.close();
    assert_eq!(a.state(), ChannelState::Closed);
    let mut b = responder();
    b.accept().unwrap();
    b.close();
    assert_eq!(b.state(), ChannelState::Closed);
    assert!(b.private_key().is_empty());
    assert!(b.public_key().is_empty());
    let mut c = responder();
    c.accept().unwrap();
    c.fault();
    c.close();
    assert_eq!(c.state(), ChannelState::Closed);
}

#[test]
fn fault_leaves_an_unconnected_channel_alone() {
    let mut handler = responder();
    handler.fault();
    assert_eq!(handler.state(), ChannelState::Unconnected);
    assert_eq!(handler.private_key(), &private_key()[..]);
}

#[test]
fn fault_during_handshake_erases_the_key_pair() {
    let mut handler = responder();
    handler.accept().unwrap();
    handler.fault();
    assert_eq!(handler.state(), ChannelState::Faulted);
    assert!(handler.private_key().is_empty());
    assert!(handler.public_key().is_empty());
}

#[test]
fn entry_points_are_bound_to_the_role() {
    let mut server = responder();
    assert_eq!(server.connect(), Err(HandShakeError::HandShakeError));
    assert_eq!(server.state(), ChannelState::Unconnected);
    let message = server.accept().unwrap();
    assert_eq!(message, public_key_message(&public_key()));
    assert_eq!(server.state(), ChannelState::Handshaking);
    assert_eq!(server.accept(), Err(HandShakeError::HandShakeError));
    assert_eq!(server.state(), ChannelState::Handshaking);
    let mut client = initiator();
    assert_eq!(client.accept(), Err(HandShakeError::HandShakeError));
    assert_eq!(client.state(), ChannelState::Unconnected);
    assert_eq!(client.connect(), Ok(()));
    assert_eq!(client.connect(), Err(HandShakeError::HandShakeError));
    assert_eq!(client.state(), ChannelState::Handshaking);
}

#[test]
fn handshake_steps_before_the_handshake_change_nothing() {
    let mut server = responder();
    assert_eq!(
        server.read_key(&ciphertext_message(&kem_ciphertext())),
        Err(ReadPKError::ReadPKError)
    );
    assert_eq!(
        server.establish(&shared_secret()),
        Err(OQSDecryptError::OQSDecryptError)
    );
    assert_eq!(server.state(), ChannelState::Unconnected);
    let mut client = initiator();
    assert_eq!(
        client.send_key(encapsulated()),
        Err(WritePKError::WritePKError)
    );
    assert_eq!(client.state(), ChannelState::Unconnected);
}

#[test]
fn two_responders_do_not_agree() {
    let mut one = responder();
    let mut two = responder();
    let from_one = one.accept().unwrap();
    let from_two = two.accept().unwrap();
    assert_eq!(one.read_key(&from_two), Err(ReadPKError::ReadPKError));
    assert_eq!(two.read_key(&from_one), Err(ReadPKError::ReadPKError));
    assert_eq!(one.state(), ChannelState::Faulted);
    assert_eq!(two.state(), ChannelState::Faulted);
}

#[test]
fn two_initiators_do_not_agree() {
    let mut one = initiator();
    one.connect().unwrap();
    assert_eq!(
        one.send_key(encapsulated()),
        Err(WritePKError::WritePKError)
    );
    assert_eq!(one.state(), ChannelState::Faulted);
    let mut two = initiator();
    two.connect().unwrap();
    assert_eq!(
        two.read_key(&ciphertext_message(&kem_ciphertext())),
        Err(ReadPKError::ReadPKError)
    );
    assert_eq!(two.state(), ChannelState::Faulted);
}

#[test]
fn corrupted_ciphertext_message_ends_the_handshake() {
    let mut server = responder();
    server.accept().unwrap();
    let mut message = ciphertext_message(&kem_ciphertext());
    message[100] ^= 0x04;
    assert_eq!(server.read_key(&message), Err(ReadPKError::ReadPKError));
    assert_eq!(server.state(), ChannelState::Faulted);
    assert!(server.private_key().is_empty());
}

#[test]
fn responder_cannot_finish_before_the_ciphertext_came() {
    let mut server = responder();
    server.accept().unwrap();
    assert_eq!(
        server.establish(&shared_secret()),
        Err(OQSDecryptError::OQSDecryptError)
    );
    assert_eq!(server.state(), ChannelState::Faulted);
}

#[test]
fn responder_refuses_secret_of_wrong_size() {
    let mut server = responder();
    server.accept().unwrap();
    server
        .read_key(&ciphertext_message(&kem_ciphertext()))
        .unwrap();
    assert_eq!(
        server.establish(&[0u8; 31]),
        Err(OQSDecryptError::OQSDecryptError)
    );
    assert_eq!(server.state(), ChannelState::Faulted);
}

#[test]
fn second_key_message_ends_the_handshake() {
    let mut server = responder();
    server.accept().unwrap();
    let message = ciphertext_message(&kem_ciphertext());
    server.read_key(&message).unwrap();
    assert_eq!(server.read_key(&message), Err(ReadPKError::ReadPKError));
    assert_eq!(server.state(), ChannelState::Faulted);
    let mut client = initiator();
    client.connect().unwrap();
    let message = public_key_message(&public_key());
    client.read_key(&message).unwrap();
    assert_eq!(client.read_key(&message), Err(ReadPKError::ReadPKError));
    assert_eq!(client.state(), ChannelState::Faulted);
}

#[test]
fn initiator_refuses_encapsulation_of_wrong_size() {
    let mut client = initiator();
    client.connect().unwrap();
    client
        .read_key(&public_key_message(&public_key()))
        .unwrap();
    let misfit = EncapsulatedSecret {
        ciphertext: vec![0; 5],
        secret: shared_secret(),
    };
    assert_eq!(client.send_key(misfit), Err(WritePKError::WritePKError));
    assert_eq!(client.state(), ChannelState::Faulted);
}

#[test]
fn send_key_gives_the_ciphertext_message() {
    let mut client = initiator();
    client.connect().unwrap();
    client
        .read_key(&public_key_message(&public_key()))
        .unwrap();
    assert_eq!(
        client.send_key(encapsulated()),
        Ok(ciphertext_message(&kem_ciphertext()))
    );
    assert_eq!(client.state(), ChannelState::Ready);
    assert_eq!(client.ct(), &kem_ciphertext()[..]);
}

#[test]
fn error_messages() {
    assert_eq!(
        ErrorGeneratingSecureKeys::ErrorSendingData.message(),
        "Error generating keys for communication"
    );
    assert_eq!(
        ErrorGeneratingKeyPair::ErrorSendingData.message(),
        "Error generating keys for communication"
    );
    assert_eq!(
        WritePKError::WritePKError.message(),
        "Error writing Public Key to peer"
    );
    assert_eq!(
        ReadPKError::ReadPKError.message(),
        "Error reading Public Key to peer"
    );
    assert_eq!(
        OQSEncryptError::OQSEncryptError.message(),
        "Error encrypting data with OQS, probably Shared Secret"
    );
    assert_eq!(
        OQSDecryptError::OQSDecryptError.message(),
        "Error decrypting data with OQS, probably Shared Secret"
    );
    assert_eq!(
        HandShakeError::HandShakeError.message(),
        "Error stablishing connection to peer"
    );
    assert_eq!(
        ErrorSendingData::ErrorSendingData.message(),
        "Error sending data to peer"
    );
    assert_eq!(
        ErrorReceivingData::ErrorReceivingData.message(),
        "Error receiving data from peer"
    );
    assert_eq!(
        ErrorParsingCiphertext::Malformed.message(),
        "Error parsing ciphertext from peer"
    );
    assert_eq!(
        ErrorParsingCiphertext::IntegrityMismatch.message(),
        "Error parsing ciphertext from peer"
    );
    assert_eq!(
        ErrorReceivingData::Parsing(ErrorParsingCiphertext::Malformed).message(),
        "Error receiving data from peer"
    );
    assert_eq!(
        EncryptError::EncryptionError(CryptoError::KeyMaterialInvalid).message(),
        "Error while trying to encrypt data"
    );
    assert_eq!(
        DecryptError::DecryptionError(CryptoError::PaddingInvalid).message(),
        "Error while trying to decrypt data"
    );
    assert_eq!(
        ErrorReceivingData::Decryption(DecryptError::DecryptionError(
            CryptoError::IntegrityMismatch
        ))
        .message(),
        "Error receiving data from peer"
    );
}

#[test]
fn crypto_error_messages_name_the_kind() {
    assert_eq!(
        CryptoError::KeyMaterialInvalid.message(),
        "Key or initialization vector of the wrong length"
    );
    assert_eq!(
        CryptoError::PaddingInvalid.message(),
        "Invalid padding in decrypted data"
    );
    assert_eq!(
        CryptoError::IntegrityMismatch.message(),
        "Decrypted data does not match its digest"
    );
}
