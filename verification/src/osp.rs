//! Message envelope types for the optional-secret transport: a topic
//! using them accepts either a plain or an encrypted payload.
//!
//! The cryptography itself (key agreement and authenticated decryption)
//! belongs to the host; the library only defines the envelope shapes and
//! the plain-payload peeler.

use vstd::prelude::*;
use core::marker::PhantomData;

verus! {

/// An encrypted payload: initialization vector, ciphertext, and the
/// sender's ephemeral public key.
#[derive(Clone, PartialEq, Eq, Debug)]
pub struct AeadCipher {
    pub iv: Vec<u8>,
    pub cipher: Vec<u8>,
    pub pubkey: Vec<u8>,
}

/// A message that is either carried in the clear or encrypted.
pub enum OspPayload<T> {
    Plain(T),
    Encrypted(AeadCipher),
}

/// Peeling an envelope failed: the payload could not be recovered.
#[derive(Clone, Copy, PartialEq, Eq, Debug, Structural)]
pub struct PeelError;

/// Unwraps one transport envelope into the message it carries.
pub trait Peeler {
    type Wrp;

    type Msg;

    fn peel(&self, msg: Self::Wrp) -> Result<Self::Msg, PeelError>;
}

/// The peeler for topics whose messages are always plain.
pub struct PlainPeeler<T>(pub PhantomData<T>);

impl<T> Peeler for PlainPeeler<T> {
    type Wrp = T;

    type Msg = T;

    fn peel(&self, msg: T) -> Result<T, PeelError> {
        Ok(msg)
    }
}

} // verus!
