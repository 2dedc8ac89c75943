//! A confidential, integrity-checked channel between two peers: a handshake
//! that agrees on a session key through a post-quantum key encapsulation, and
//! frames that carry messages encrypted under that key.
//!
//! The library computes and checks; it moves no bytes itself. Whoever owns the
//! transport and the key-encapsulation backend hands their results in and
//! takes the bytes to send out.

use crate::encryption::hybrid::{
    ciphertext_message, ciphertext_message_bytes, erase, is_ciphertext_message,
    lemma_ciphertext_message_reads_back, lemma_public_key_message_reads_back,
    is_public_key_message, key_exchange, message_ciphertext, public_key_message,
    public_key_message_bytes, read_ciphertext_message, read_public_key_message, sealed,
    session_key, derive_session_key, AlgorithmIdentity, EncapsulatedSecret, KeyPair, IV_LEN,
    LENGTH_PREFIX_LEN, SESSION_KEY_LEN,
};
use crate::errors::{
    ErrorGeneratingSecureKeys, ErrorReceivingData, ErrorSendingData, HandShakeError,
    OQSDecryptError, ReadPKError, WritePKError,
};
use crate::packets::{decode, decoded, encode, frame_bytes, frame_fault, FILENAME_LEN};
use vstd::prelude::*;

pub mod encryption;
pub mod errors;
pub mod packets;

verus! {

/// The part that a peer plays in the handshake.
#[derive(Debug, Clone, Copy, PartialEq, Eq, Structural)]
pub enum Role {
    /// Encapsulates a secret against the public key of the peer.
    Initiator,
    /// Generates the key pair and decapsulates what the peer sends.
    Responder,
}

/// Where a channel stands in its life.
#[derive(Debug, Clone, Copy, PartialEq, Eq, Structural)]
pub enum ChannelState {
    /// No handshake has begun.
    Unconnected,
    /// The handshake has begun and has neither succeeded nor failed.
    Handshaking,
    /// Both sides hold the session key; messages can be written and read.
    Ready,
    /// A handshake, integrity or transmission failure ended the channel.
    Faulted,
    /// The channel was closed.
    Closed,
}

/// What a channel holds, as plain values.
pub struct HandlerView {
    pub role: Role,
    pub kem: AlgorithmIdentity,
    pub state: ChannelState,
    /// The responder's own public key, or the one an initiator received.
    pub public_key: Seq<u8>,
    /// The responder's private key.
    pub private_key: Seq<u8>,
    /// The ciphertext that the initiator sent and the responder received.
    pub ct: Seq<u8>,
    /// The session key.
    pub sc: Seq<u8>,
}

impl HandlerView {
    /// What every channel satisfies: key material is held only where the
    /// state and the role call for it, and has the sizes of the scheme.
    pub open spec fn wf(self) -> bool {
        match self.state {
            ChannelState::Unconnected => {
                &&& self.sc.len() == 0
                &&& self.ct.len() == 0
                &&& self.role is Responder ==> {
                    &&& self.public_key.len() == self.kem.length_public_key()
                    &&& self.private_key.len() == self.kem.length_secret_key()
                }
                &&& self.role is Initiator ==> {
                    &&& self.public_key.len() == 0
                    &&& self.private_key.len() == 0
                }
            },
            ChannelState::Handshaking => {
                &&& self.sc.len() == 0
                &&& self.role is Responder ==> {
                    &&& self.public_key.len() == self.kem.length_public_key()
                    &&& self.private_key.len() == self.kem.length_secret_key()
                    &&& self.ct.len() == 0 || self.ct.len() == self.kem.length_ciphertext()
                }
                &&& self.role is Initiator ==> {
                    &&& self.private_key.len() == 0
                    &&& self.ct.len() == 0
                    &&& self.public_key.len() == 0 || self.public_key.len()
                        == self.kem.length_public_key()
                }
            },
            ChannelState::Ready => {
                &&& self.sc.len() == SESSION_KEY_LEN
                &&& self.ct.len() == self.kem.length_ciphertext()
                &&& self.public_key.len() == 0
                &&& self.private_key.len() == 0
            },
            ChannelState::Faulted | ChannelState::Closed => {
                &&& self.sc.len() == 0
                &&& self.ct.len() == 0
                &&& self.public_key.len() == 0
                &&& self.private_key.len() == 0
            },
        }
    }

    /// The channel in the given state, with all key material erased.
    pub open spec fn erased(self, state: ChannelState) -> HandlerView {
        HandlerView {
            state,
            public_key: Seq::empty(),
            private_key: Seq::empty(),
            ct: Seq::empty(),
            sc: Seq::empty(),
            ..self
        }
    }

    /// A channel that no handshake has begun on.
    pub open spec fn fresh(
        role: Role,
        kem: AlgorithmIdentity,
        public_key: Seq<u8>,
        private_key: Seq<u8>,
    ) -> HandlerView {
        HandlerView {
            role,
            kem,
            state: ChannelState::Unconnected,
            public_key,
            private_key,
            ct: Seq::empty(),
            sc: Seq::empty(),
        }
    }

    /// The channel after a failure of the transport or of the peer: a
    /// channel in use becomes faulted, any other stays as it is.
    pub open spec fn after_fault(self) -> HandlerView {
        if self.state is Handshaking || self.state is Ready {
            self.erased(ChannelState::Faulted)
        } else {
            self
        }
    }

    /// Whether the channel can begin a handshake as initiator.
    pub open spec fn can_connect(self) -> bool {
        self.role is Initiator && self.state is Unconnected
    }

    /// Whether the channel can begin a handshake as responder.
    pub open spec fn can_accept(self) -> bool {
        self.role is Responder && self.state is Unconnected
    }

    /// The channel after it was asked to begin a handshake as initiator.
    pub open spec fn after_connect(self) -> HandlerView {
        if self.can_connect() {
            HandlerView { state: ChannelState::Handshaking, ..self }
        } else {
            self
        }
    }

    /// The channel after it was asked to begin a handshake as responder.
    pub open spec fn after_accept(self) -> HandlerView {
        if self.can_accept() {
            HandlerView { state: ChannelState::Handshaking, ..self }
        } else {
            self
        }
    }

    /// Whether the channel takes `message` as the key message of its peer: an
    /// initiator that has no public key yet takes a public key, a responder
    /// that has no ciphertext yet takes a ciphertext with its digest.
    pub open spec fn accepts_key(self, message: Seq<u8>) -> bool {
        &&& self.state is Handshaking
        &&& match self.role {
            Role::Initiator => self.public_key.len() == 0 && is_public_key_message(
                self.kem,
                message,
            ),
            Role::Responder => self.ct.len() == 0 && is_ciphertext_message(self.kem, message),
        }
    }

    /// The channel after the key message of the peer was handed to it.
    pub open spec fn after_read_key(self, message: Seq<u8>) -> HandlerView {
        if self.accepts_key(message) {
            match self.role {
                Role::Initiator => HandlerView {
                    public_key: message.subrange(LENGTH_PREFIX_LEN as int, message.len() as int),
                    ..self
                },
                Role::Responder => HandlerView {
                    ct: message_ciphertext(self.kem, message),
                    ..self
                },
            }
        } else if self.state is Handshaking {
            self.erased(ChannelState::Faulted)
        } else {
            self
        }
    }

    /// Whether the channel can send the ciphertext of an encapsulation: it
    /// is an initiator in a handshake, has received the public key, and the
    /// encapsulation has the sizes of the scheme.
    pub open spec fn can_send_key(self, ciphertext: Seq<u8>, secret: Seq<u8>) -> bool {
        &&& self.state is Handshaking
        &&& self.role is Initiator
        &&& self.public_key.len() == self.kem.length_public_key()
        &&& ciphertext.len() == self.kem.length_ciphertext()
        &&& secret.len() == self.kem.length_shared_secret()
    }

    /// The channel after an encapsulation was handed to it for sending.
    pub open spec fn after_send_key(self, ciphertext: Seq<u8>, secret: Seq<u8>) -> HandlerView {
        if self.can_send_key(ciphertext, secret) {
            HandlerView {
                state: ChannelState::Ready,
                public_key: Seq::empty(),
                private_key: Seq::empty(),
                ct: ciphertext,
                sc: session_key(secret),
                ..self
            }
        } else if self.state is Handshaking {
            self.erased(ChannelState::Faulted)
        } else {
            self
        }
    }

    /// Whether the channel can finish the handshake with a decapsulated
    /// secret: it is a responder in a handshake, has received the ciphertext,
    /// and the secret has the size of the scheme.
    pub open spec fn can_establish(self, secret: Seq<u8>) -> bool {
        &&& self.state is Handshaking
        &&& self.role is Responder
        &&& self.ct.len() == self.kem.length_ciphertext()
        &&& secret.len() == self.kem.length_shared_secret()
    }

    /// The channel after a decapsulated secret was handed to it.
    pub open spec fn after_establish(self, secret: Seq<u8>) -> HandlerView {
        if self.can_establish(secret) {
            HandlerView {
                state: ChannelState::Ready,
                public_key: Seq::empty(),
                private_key: Seq::empty(),
                sc: session_key(secret),
                ..self
            }
        } else if self.state is Handshaking {
            self.erased(ChannelState::Faulted)
        } else {
            self
        }
    }

    /// What reading `frame` gives: a channel that is not ready refuses, a
    /// ready one decodes the frame under its session key.
    pub open spec fn read_outcome(self, frame: Seq<u8>) -> Result<Seq<u8>, ErrorReceivingData> {
        if self.state is Ready {
            match decoded(self.sc, frame) {
                Ok((_, plaintext)) => Ok(plaintext),
                Err(e) => Err(e),
            }
        } else {
            Err(ErrorReceivingData::ErrorReceivingData)
        }
    }

    /// The channel after `frame` was handed to it for reading: a ready
    /// channel that refuses the frame becomes faulted.
    pub open spec fn after_read(self, frame: Seq<u8>) -> HandlerView {
        if self.state is Ready && self.read_outcome(frame) is Err {
            self.erased(ChannelState::Faulted)
        } else {
            self
        }
    }
}

/// One end of a secure channel: the state of its handshake and, once that has
/// succeeded, the session key under which messages are framed.
///
/// The channel does no transport of its own. Each step takes the bytes that
/// the transport received, or gives the bytes that it is to send.
pub struct Handler {
    role: Role,
    kem: AlgorithmIdentity,
    state: ChannelState,
    public_key: Vec<u8>,
    private_key: Vec<u8>,
    ct: Vec<u8>,
    sc: Vec<u8>,
}

impl View for Handler {
    type V = HandlerView;

    closed spec fn view(&self) -> HandlerView {
        HandlerView {
            role: self.role,
            kem: self.kem,
            state: self.state,
            public_key: self.public_key@,
            private_key: self.private_key@,
            ct: self.ct@,
            sc: self.sc@,
        }
    }
}

impl Handler {
    #[verifier::type_invariant]
    closed spec fn inv(self) -> bool {
        self@.wf()
    }

    /// Erases the key material of a channel that is given up.
    fn wipe(self) {
        let Handler { public_key, private_key, ct, sc, .. } = self;
        let mut public_key = public_key;
        let mut private_key = private_key;
        let mut ct = ct;
        let mut sc = sc;
        erase(&mut public_key);
        erase(&mut private_key);
        erase(&mut ct);
        erase(&mut sc);
    }

    /// Puts `next` in the place of the channel and erases what was there.
    fn replace(&mut self, next: Handler)
        ensures
            final(self)@ == next@,
    {
        let mut previous = next;
        std::mem::swap(self, &mut previous);
        previous.wipe();
    }

    /// The channel in the given state, with all key material erased.
    fn erase_into(&mut self, state: ChannelState)
        requires
            state is Faulted || state is Closed,
        ensures
            final(self)@ == old(self)@.erased(state),
    {
        let blank = Handler {
            role: self.role,
            kem: self.kem,
            state,
            public_key: Vec::new(),
            private_key: Vec::new(),
            ct: Vec::new(),
            sc: Vec::new(),
        };
        self.replace(blank);
    }

    /// A channel for the given role. A responder brings the key pair that it
    /// generated for this handshake, of the sizes of the scheme; an initiator
    /// brings none.
    pub fn new(role: Role, kem: AlgorithmIdentity, keypair: Option<KeyPair>) -> (result: Result<
        Handler,
        ErrorGeneratingSecureKeys,
    >)
        ensures
            result is Ok <==> match role {
                Role::Responder => keypair matches Some(pair) && pair.fits(kem),
                Role::Initiator => keypair is None,
            },
            result matches Ok(handler) ==> handler@.wf() && handler@ == (match keypair {
                Some(pair) => HandlerView::fresh(role, kem, pair.public@, pair.private@),
                None => HandlerView::fresh(role, kem, Seq::empty(), Seq::empty()),
            }),
    {
        match keypair {
            Some(pair) => {
                let KeyPair { public, private } = pair;
                let fits = public.len() == kem.length_public_key() && private.len()
                    == kem.length_secret_key();
                match role {
                    Role::Responder if fits => Ok(
                        Handler {
                            role,
                            kem,
                            state: ChannelState::Unconnected,
                            public_key: public,
                            private_key: private,
                            ct: Vec::new(),
                            sc: Vec::new(),
                        },
                    ),
                    _ => {
                        let mut private = private;
                        erase(&mut private);
                        Err(ErrorGeneratingSecureKeys::ErrorSendingData)
                    },
                }
            },
            None => match role {
                Role::Initiator => Ok(
                    Handler {
                        role,
                        kem,
                        state: ChannelState::Unconnected,
                        public_key: Vec::new(),
                        private_key: Vec::new(),
                        ct: Vec::new(),
                        sc: Vec::new(),
                    },
                ),
                Role::Responder => Err(ErrorGeneratingSecureKeys::ErrorSendingData),
            },
        }
    }

    /// Begins the handshake as initiator.
    pub fn connect(&mut self) -> (result: Result<(), HandShakeError>)
        ensures
            old(self)@.wf(),
            final(self)@.wf(),
            result is Ok <==> old(self)@.can_connect(),
            final(self)@ == old(self)@.after_connect(),
    {
        proof {
            use_type_invariant(&*self);
        }
        match (self.role, self.state) {
            (Role::Initiator, ChannelState::Unconnected) => {
                self.state = ChannelState::Handshaking;
                Ok(())
            },
            _ => Err(HandShakeError::HandShakeError),
        }
    }

    /// Begins the handshake as responder, and gives the message that carries
    /// the public key to the peer.
    pub fn accept(&mut self) -> (result: Result<Vec<u8>, HandShakeError>)
        ensures
            old(self)@.wf(),
            final(self)@.wf(),
            result is Ok <==> old(self)@.can_accept(),
            result matches Ok(message) ==> message@ == public_key_message_bytes(
                old(self)@.public_key,
            ),
            final(self)@ == old(self)@.after_accept(),
    {
        proof {
            use_type_invariant(&*self);
        }
        match (self.role, self.state) {
            (Role::Responder, ChannelState::Unconnected) => {
                self.state = ChannelState::Handshaking;
                Ok(public_key_message(self.public_key.as_slice()))
            },
            _ => Err(HandShakeError::HandShakeError),
        }
    }

    /// Takes the key message of the peer: for an initiator the message that
    /// carries the public key, for a responder the one that carries the
    /// ciphertext and its digest. A message that is refused during a
    /// handshake ends the channel.
    pub fn read_key(&mut self, message: &[u8]) -> (result: Result<(), ReadPKError>)
        ensures
            old(self)@.wf(),
            final(self)@.wf(),
            result is Ok <==> old(self)@.accepts_key(message@),
            final(self)@ == old(self)@.after_read_key(message@),
    {
        proof {
            use_type_invariant(&*self);
        }
        match self.state {
            ChannelState::Handshaking => {},
            _ => {
                return Err(ReadPKError::ReadPKError);
            },
        }
        match self.role {
            Role::Initiator => {
                if self.public_key.len() == 0 {
                    match read_public_key_message(self.kem, message) {
                        Ok(public) => {
                            self.public_key = public;
                            return Ok(());
                        },
                        Err(_) => {},
                    }
                }
            },
            Role::Responder => {
                if self.ct.len() == 0 {
                    match read_ciphertext_message(self.kem, message) {
                        Ok(ciphertext) => {
                            self.ct = ciphertext;
                            return Ok(());
                        },
                        Err(_) => {},
                    }
                }
            },
        }
        self.erase_into(ChannelState::Faulted);
        Err(ReadPKError::ReadPKError)
    }

    /// Takes what encapsulation against the received public key gave, and
    /// gives the message that carries the ciphertext and its digest to the
    /// peer. The channel of the initiator is ready from here on. A refusal
    /// during a handshake ends the channel.
    pub fn send_key(&mut self, encapsulated: EncapsulatedSecret) -> (result: Result<
        Vec<u8>,
        WritePKError,
    >)
        ensures
            old(self)@.wf(),
            final(self)@.wf(),
            result is Ok <==> old(self)@.can_send_key(
                encapsulated.ciphertext@,
                encapsulated.secret@,
            ),
            result matches Ok(message) ==> message@ == ciphertext_message_bytes(
                encapsulated.ciphertext@,
            ),
            final(self)@ == old(self)@.after_send_key(
                encapsulated.ciphertext@,
                encapsulated.secret@,
            ),
    {
        proof {
            use_type_invariant(&*self);
        }
        let exchanged = key_exchange(self.kem, &encapsulated);
        let EncapsulatedSecret { ciphertext: _, secret } = encapsulated;
        let mut secret = secret;
        erase(&mut secret);
        match self.state {
            ChannelState::Handshaking => {},
            _ => {
                return Err(WritePKError::WritePKError);
            },
        }
        match (self.role, exchanged) {
            (Role::Initiator, Ok((ciphertext, key))) => {
                if self.public_key.len() == self.kem.length_public_key() {
                    let message = ciphertext_message(ciphertext.as_slice());
                    let next = Handler {
                        role: self.role,
                        kem: self.kem,
                        state: ChannelState::Ready,
                        public_key: Vec::new(),
                        private_key: Vec::new(),
                        ct: ciphertext,
                        sc: key,
                    };
                    self.replace(next);
                    return Ok(message);
                }
            },
            _ => {},
        }
        self.erase_into(ChannelState::Faulted);
        Err(WritePKError::WritePKError)
    }

    /// Takes the secret that decapsulation of the received ciphertext gave.
    /// The channel of the responder is ready from here on. A refusal during a
    /// handshake ends the channel.
    pub fn establish(&mut self, secret: &[u8]) -> (result: Result<(), OQSDecryptError>)
        ensures
            old(self)@.wf(),
            final(self)@.wf(),
            result is Ok <==> old(self)@.can_establish(secret@),
            final(self)@ == old(self)@.after_establish(secret@),
    {
        proof {
            use_type_invariant(&*self);
        }
        match self.state {
            ChannelState::Handshaking => {},
            _ => {
                return Err(OQSDecryptError::OQSDecryptError);
            },
        }
        match self.role {
            Role::Responder => {
                if self.ct.len() == self.kem.length_ciphertext() && secret.len()
                    == self.kem.length_shared_secret() {
                    let next = Handler {
                        role: self.role,
                        kem: self.kem,
                        state: ChannelState::Ready,
                        public_key: Vec::new(),
                        private_key: Vec::new(),
                        ct: vstd::slice::slice_to_vec(self.ct.as_slice()),
                        sc: derive_session_key(secret),
                    };
                    self.replace(next);
                    return Ok(());
                }
            },
            Role::Initiator => {},
        }
        self.erase_into(ChannelState::Faulted);
        Err(OQSDecryptError::OQSDecryptError)
    }

    /// Frames one message for the peer: the bytes to hand to the transport.
    /// A channel that is not ready refuses, and gives nothing to send.
    pub fn write(&mut self, buf: &[u8]) -> (result: Result<Vec<u8>, ErrorSendingData>)
        ensures
            old(self)@.wf(),
            final(self)@ == old(self)@,
            result is Ok <==> old(self)@.state is Ready,
            result matches Ok(frame) ==> frame_fault(frame@) is None && exists|iv: Seq<u8>|
                iv.len() == IV_LEN && frame@ == #[trigger] frame_bytes(
                    None,
                    iv,
                    sealed(old(self)@.sc, iv, buf@),
                ),
    {
        proof {
            use_type_invariant(&*self);
        }
        match self.state {
            ChannelState::Ready => {},
            _ => {
                return Err(ErrorSendingData::ErrorSendingData);
            },
        }
        match encode(self.sc.as_slice(), None, buf) {
            Ok(frame) => Ok(frame),
            Err(_) => Err(ErrorSendingData::ErrorSendingData),
        }
    }

    /// Takes one complete frame as the transport received it, and gives its
    /// verified plaintext. A channel that is not ready refuses without
    /// looking at the frame. A frame that is refused ends the channel.
    pub fn read(&mut self, frame: &[u8]) -> (result: Result<Vec<u8>, ErrorReceivingData>)
        ensures
            old(self)@.wf(),
            final(self)@.wf(),
            match result {
                Ok(plaintext) => old(self)@.read_outcome(frame@) == Ok::<
                    Seq<u8>,
                    ErrorReceivingData,
                >(plaintext@),
                Err(e) => old(self)@.read_outcome(frame@) == Err::<Seq<u8>, ErrorReceivingData>(e),
            },
            final(self)@ == old(self)@.after_read(frame@),
            forall|filename: Option<Seq<u8>>, iv: Seq<u8>, p: Seq<u8>|
                old(self)@.state is Ready && iv.len() == IV_LEN && (filename matches Some(name)
                    ==> name.len() == FILENAME_LEN) && frame@ == #[trigger] frame_bytes(
                    filename,
                    iv,
                    sealed(old(self)@.sc, iv, p),
                ) ==> (result matches Ok(v) && v@ == p),
    {
        proof {
            use_type_invariant(&*self);
        }
        match self.state {
            ChannelState::Ready => {},
            _ => {
                return Err(ErrorReceivingData::ErrorReceivingData);
            },
        }
        match decode(self.sc.as_slice(), frame) {
            Ok((_, plaintext)) => Ok(plaintext),
            Err(e) => {
                self.erase_into(ChannelState::Faulted);
                Err(e)
            },
        }
    }

    /// Records that the transport or the peer failed: a channel in a
    /// handshake or ready becomes faulted and loses its key material.
    pub fn fault(&mut self)
        ensures
            old(self)@.wf(),
            final(self)@.wf(),
            final(self)@ == old(self)@.after_fault(),
    {
        proof {
            use_type_invariant(&*self);
        }
        match self.state {
            ChannelState::Handshaking | ChannelState::Ready => {
                self.erase_into(ChannelState::Faulted);
            },
            _ => {},
        }
    }

    /// Closes the channel, whatever its state, and erases its key material.
    pub fn close(&mut self)
        ensures
            old(self)@.wf(),
            final(self)@.wf(),
            final(self)@ == old(self)@.erased(ChannelState::Closed),
    {
        proof {
            use_type_invariant(&*self);
        }
        self.erase_into(ChannelState::Closed);
    }

    /// The role of this end of the channel.
    pub fn role(&self) -> (role: Role)
        ensures
            role == self@.role,
            self@.wf(),
    {
        proof {
            use_type_invariant(self);
        }
        self.role
    }

    /// The key-encapsulation scheme of the channel.
    pub fn kem(&self) -> (kem: AlgorithmIdentity)
        ensures
            kem == self@.kem,
            self@.wf(),
    {
        proof {
            use_type_invariant(self);
        }
        self.kem
    }

    /// The state of the channel.
    pub fn state(&self) -> (state: ChannelState)
        ensures
            state == self@.state,
            self@.wf(),
    {
        proof {
            use_type_invariant(self);
        }
        self.state
    }

    /// The public key that the channel holds: a responder's own, or the one
    /// that an initiator received. Empty where it holds none.
    pub fn public_key(&self) -> (key: &[u8])
        ensures
            key@ == self@.public_key,
            self@.wf(),
    {
        proof {
            use_type_invariant(self);
        }
        self.public_key.as_slice()
    }

    /// The private key of a responder, for decapsulation. Empty before the
    /// handshake of an initiator and after the end of any handshake.
    pub fn private_key(&self) -> (key: &[u8])
        ensures
            key@ == self@.private_key,
            self@.wf(),
    {
        proof {
            use_type_invariant(self);
        }
        self.private_key.as_slice()
    }

    /// The ciphertext of the handshake. Empty where the channel holds none.
    pub fn ct(&self) -> (ciphertext: &[u8])
        ensures
            ciphertext@ == self@.ct,
            self@.wf(),
    {
        proof {
            use_type_invariant(self);
        }
        self.ct.as_slice()
    }
}

/// Every step of a channel leaves it well formed.
pub proof fn lemma_steps_keep_well_formed(
    channel: HandlerView,
    message: Seq<u8>,
    ciphertext: Seq<u8>,
    secret: Seq<u8>,
    state: ChannelState,
)
    requires
        channel.wf(),
        state is Faulted || state is Closed,
    ensures
        channel.erased(state).wf(),
        channel.after_connect().wf(),
        channel.after_accept().wf(),
        channel.after_fault().wf(),
        channel.after_read_key(message).wf(),
        channel.after_send_key(ciphertext, secret).wf(),
        channel.after_establish(secret).wf(),
        channel.after_read(message).wf(),
{
}

/// A channel that is faulted or closed stays as it is under every step of
/// the handshake and under a failure of the transport, and cannot begin a
/// handshake.
pub proof fn lemma_ended_channel_stays_ended(
    channel: HandlerView,
    message: Seq<u8>,
    ciphertext: Seq<u8>,
    secret: Seq<u8>,
)
    requires
        channel.state is Faulted || channel.state is Closed,
    ensures
        channel.after_connect() == channel,
        channel.after_accept() == channel,
        channel.after_fault() == channel,
        channel.after_read_key(message) == channel,
        channel.after_send_key(ciphertext, secret) == channel,
        channel.after_establish(secret) == channel,
        channel.read_outcome(message) == Err::<Seq<u8>, ErrorReceivingData>(
            ErrorReceivingData::ErrorReceivingData,
        ),
        channel.after_read(message) == channel,
{
}

/// An initiator and a responder that finish the handshake over the same
/// ciphertext, with the same secret on both sides, are both ready and hold
/// the same session key.
pub proof fn lemma_handshake_gives_one_session_key(
    initiator: HandlerView,
    responder: HandlerView,
    ciphertext: Seq<u8>,
    secret: Seq<u8>,
)
    requires
        initiator.can_send_key(ciphertext, secret),
        responder.can_establish(secret),
    ensures
        initiator.after_send_key(ciphertext, secret).state is Ready,
        responder.after_establish(secret).state is Ready,
        initiator.after_send_key(ciphertext, secret).sc == responder.after_establish(secret).sc,
        initiator.after_send_key(ciphertext, secret).sc == session_key(secret),
{
}

/// A responder and an initiator of the same scheme, both fresh, get through
/// the handshake: each takes the key message of the other, and where
/// decapsulation gives the responder the secret that encapsulation gave the
/// initiator, both end ready, with the same ciphertext and the same session
/// key.
pub proof fn lemma_handshake_completes(
    responder: HandlerView,
    initiator: HandlerView,
    ciphertext: Seq<u8>,
    secret: Seq<u8>,
)
    requires
        responder.wf(),
        initiator.wf(),
        responder.can_accept(),
        initiator.can_connect(),
        responder.kem == initiator.kem,
        ciphertext.len() == initiator.kem.length_ciphertext(),
        secret.len() == initiator.kem.length_shared_secret(),
    ensures
        ({
            let from_responder = public_key_message_bytes(responder.public_key);
            let from_initiator = ciphertext_message_bytes(ciphertext);
            let waiting = initiator.after_connect();
            let encapsulating = waiting.after_read_key(from_responder);
            let client = encapsulating.after_send_key(ciphertext, secret);
            let offering = responder.after_accept();
            let decapsulating = offering.after_read_key(from_initiator);
            let server = decapsulating.after_establish(secret);
            &&& waiting.accepts_key(from_responder)
            &&& encapsulating.public_key == responder.public_key
            &&& encapsulating.can_send_key(ciphertext, secret)
            &&& offering.accepts_key(from_initiator)
            &&& decapsulating.ct == ciphertext
            &&& decapsulating.can_establish(secret)
            &&& client.state is Ready
            &&& server.state is Ready
            &&& client.ct == server.ct
            &&& client.sc == server.sc
            &&& client.sc == session_key(secret)
        }),
{
    lemma_public_key_message_reads_back(responder.kem, responder.public_key);
    lemma_ciphertext_message_reads_back(responder.kem, ciphertext);
}

/// Two peers in the same role do not get through the handshake. A responder
/// does not take the message that a responder sends, an initiator does not
/// take the message that an initiator sends, and an initiator that has taken
/// no public key cannot send a ciphertext.
pub proof fn lemma_same_roles_do_not_agree(
    channel: HandlerView,
    public_key: Seq<u8>,
    ciphertext: Seq<u8>,
    secret: Seq<u8>,
)
    requires
        channel.wf(),
    ensures
        channel.role is Responder ==> !channel.accepts_key(public_key_message_bytes(public_key)),
        channel.role is Initiator ==> !channel.accepts_key(ciphertext_message_bytes(ciphertext)),
        channel.role is Initiator && channel.public_key.len() == 0 ==> !channel.can_send_key(
            ciphertext,
            secret,
        ),
        channel.role is Responder ==> !channel.can_send_key(ciphertext, secret),
        channel.role is Initiator ==> !channel.can_establish(secret),
{
    vstd::bytes::lemma_auto_spec_u64_to_from_le_bytes();
    let from_responder = public_key_message_bytes(public_key);
    let from_initiator = ciphertext_message_bytes(ciphertext);
    if channel.role is Responder && is_ciphertext_message(channel.kem, from_responder) {
        let inner = message_ciphertext(channel.kem, from_responder);
        assert(from_responder.subrange(0, 8) =~= vstd::bytes::spec_u64_to_le_bytes(
            public_key.len() as u64,
        ));
        assert(from_responder.subrange(0, 8) =~= vstd::bytes::spec_u64_to_le_bytes(
            inner.len() as u64,
        ));
    }
    if channel.role is Initiator && is_public_key_message(channel.kem, from_initiator) {
        let inner = from_initiator.subrange(LENGTH_PREFIX_LEN as int, from_initiator.len() as int);
        assert(from_initiator.subrange(0, 8) =~= vstd::bytes::spec_u64_to_le_bytes(
            ciphertext.len() as u64,
        ));
        assert(from_initiator.subrange(0, 8) =~= vstd::bytes::spec_u64_to_le_bytes(
            inner.len() as u64,
        ));
    }
}

} // verus!
