//! The plain streaming sink.
//!
//! A [`Sink`] wraps an owned byte stream and a cipher stream: every write is
//! fed through the cipher's update step and the transformed bytes land in the
//! stream. It is the buffered fallback around the cipher, with no mapping
//! involved.
use vstd::prelude::*;

use crate::cha;
use crate::cha::{xor_stream, Error, Key, StreamCipher, IV};

verus! {

/// A ChaCha sink: a byte stream that transforms everything written to it.
pub struct Sink {
    stream: Vec<u8>,
    crypter: StreamCipher,
}

impl Sink {
    /// The bytes written to the stream so far.
    pub closed spec fn spec_stream(&self) -> Seq<u8> {
        self.stream@
    }

    /// The key the sink's cipher runs with.
    pub closed spec fn spec_key(&self) -> Seq<u8> {
        self.crypter.spec_key()
    }

    /// The IV the sink's cipher runs with.
    pub closed spec fn spec_iv(&self) -> Seq<u8> {
        self.crypter.spec_iv()
    }

    /// The keystream position the sink's cipher has reached.
    pub closed spec fn spec_pos(&self) -> nat {
        self.crypter.spec_pos()
    }

    /// A sink over `stream` transforming through `crypter`.
    pub fn new(stream: Vec<u8>, crypter: StreamCipher) -> (s: Sink)
        ensures
            s.spec_stream() == stream@,
            s.spec_key() == crypter.spec_key(),
            s.spec_iv() == crypter.spec_iv(),
            s.spec_pos() == crypter.spec_pos(),
    {
        Sink { stream, crypter }
    }

    /// An encrypting sink over `stream`.
    pub fn encrypt(stream: Vec<u8>, key: Key, iv: IV) -> (r: Result<Sink, Error>)
        requires
            key.wf(),
            iv.wf(),
        ensures
            r is Ok ==> ({
                let s = r->Ok_0;
                s.spec_stream() == stream@ && s.spec_key() == key@ && s.spec_iv() == iv@
                    && s.spec_pos() == 0
            }),
    {
        match cha::encrypter(&key, &iv) {
            Ok(c) => Ok(Sink::new(stream, c)),
            Err(e) => Err(e),
        }
    }

    /// A decrypting sink over `stream`.
    pub fn decrypt(stream: Vec<u8>, key: Key, iv: IV) -> (r: Result<Sink, Error>)
        requires
            key.wf(),
            iv.wf(),
        ensures
            r is Ok ==> ({
                let s = r->Ok_0;
                s.spec_stream() == stream@ && s.spec_key() == key@ && s.spec_iv() == iv@
                    && s.spec_pos() == 0
            }),
    {
        match cha::decrypter(&key, &iv) {
            Ok(c) => Ok(Sink::new(stream, c)),
            Err(e) => Err(e),
        }
    }

    /// Feed `buf` through the cipher and append the transformed bytes to the
    /// stream. Reports how many bytes were written: all of them.
    pub fn write(&mut self, buf: &[u8]) -> (r: Result<usize, std::io::Error>)
        requires
            buf@.len() <= 0x7fff_ffff,
        ensures
            final(self).spec_key() == old(self).spec_key(),
            final(self).spec_iv() == old(self).spec_iv(),
            r is Ok ==> r->Ok_0 == buf@.len() && final(self).spec_stream() == old(
                self,
            ).spec_stream() + xor_stream(
                old(self).spec_key(),
                old(self).spec_iv(),
                old(self).spec_pos(),
                buf@,
            ) && final(self).spec_pos() == old(self).spec_pos() + buf@.len(),
            r is Err ==> final(self).spec_stream() == old(self).spec_stream(),
    {
        match self.crypter.update(buf) {
            Ok(out) => {
                let mut out = out;
                self.stream.append(&mut out);
                Ok(buf.len())
            },
            Err(e) => Err(e),
        }
    }

    /// As [`Sink::write`], without the count.
    pub fn write_all(&mut self, buf: &[u8]) -> (r: Result<(), std::io::Error>)
        requires
            buf@.len() <= 0x7fff_ffff,
        ensures
            final(self).spec_key() == old(self).spec_key(),
            final(self).spec_iv() == old(self).spec_iv(),
            r is Ok ==> final(self).spec_stream() == old(self).spec_stream() + xor_stream(
                old(self).spec_key(),
                old(self).spec_iv(),
                old(self).spec_pos(),
                buf@,
            ) && final(self).spec_pos() == old(self).spec_pos() + buf@.len(),
            r is Err ==> final(self).spec_stream() == old(self).spec_stream(),
    {
        match self.write(buf) {
            Ok(_) => Ok(()),
            Err(e) => Err(e),
        }
    }

    /// Flush the stream; an owned byte stream holds nothing back.
    pub fn flush(&mut self) -> (r: Result<(), std::io::Error>)
        ensures
            r is Ok,
            *final(self) == *old(self),
    {
        Ok(())
    }

    /// Consume into the inner stream.
    pub fn into_inner(self) -> (r: Vec<u8>)
        ensures
            r@ == self.spec_stream(),
    {
        self.stream
    }

    /// Consume into the inner stream and crypter.
    pub fn into_parts(self) -> (r: (Vec<u8>, StreamCipher))
        ensures
            r.0@ == self.spec_stream(),
            r.1.spec_key() == self.spec_key(),
            r.1.spec_iv() == self.spec_iv(),
            r.1.spec_pos() == self.spec_pos(),
    {
        (self.stream, self.crypter)
    }

    /// The crypter of this instance.
    pub fn crypter(&self) -> (r: &StreamCipher)
        ensures
            r.spec_key() == self.spec_key(),
            r.spec_iv() == self.spec_iv(),
            r.spec_pos() == self.spec_pos(),
    {
        &self.crypter
    }

    /// The crypter of this instance, mutably.
    pub fn crypter_mut(&mut self) -> (r: &mut StreamCipher)
        ensures
            r.spec_key() == old(self).spec_key(),
            r.spec_iv() == old(self).spec_iv(),
            r.spec_pos() == old(self).spec_pos(),
            final(self).spec_key() == final(r).spec_key(),
            final(self).spec_iv() == final(r).spec_iv(),
            final(self).spec_pos() == final(r).spec_pos(),
            final(self).spec_stream() == old(self).spec_stream(),
    {
        &mut self.crypter
    }

    /// The inner stream.
    pub fn inner(&self) -> (r: &Vec<u8>)
        ensures
            r@ == self.spec_stream(),
    {
        &self.stream
    }

    /// The inner stream, mutably.
    pub fn inner_mut(&mut self) -> (r: &mut Vec<u8>)
        ensures
            r@ == old(self).spec_stream(),
            final(self).spec_stream() == final(r)@,
            final(self).spec_key() == old(self).spec_key(),
            final(self).spec_iv() == old(self).spec_iv(),
            final(self).spec_pos() == old(self).spec_pos(),
    {
        &mut self.stream
    }
}

} // verus!
