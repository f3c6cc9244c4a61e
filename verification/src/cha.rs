//! The stream-cipher collaborator: keys, IVs and the ChaCha20-Poly1305
//! update step.
//!
//! The cipher itself is external; this module only states what its update
//! step does — XOR each input byte with a keystream byte determined by the
//! key, the IV and the absolute stream position — and tracks that position.
use vstd::prelude::*;

verus! {

/// Byte length of a ChaCha20-Poly1305 key.
pub const KEY_SIZE: usize = 32;

/// Byte length of a ChaCha20-Poly1305 initialisation vector.
pub const IV_SIZE: usize = 12;

/// A cipher key of exactly [`KEY_SIZE`] bytes.
#[derive(Debug, Clone)]
pub struct Key {
    bytes: Vec<u8>,
}

/// An initialisation vector of exactly [`IV_SIZE`] bytes.
#[derive(Debug, Clone)]
pub struct IV {
    bytes: Vec<u8>,
}

impl View for Key {
    type V = Seq<u8>;

    closed spec fn view(&self) -> Seq<u8> {
        self.bytes@
    }
}

impl View for IV {
    type V = Seq<u8>;

    closed spec fn view(&self) -> Seq<u8> {
        self.bytes@
    }
}

/// Fresh bytes from the operating system's random source.
///
/// Relies on `getrandom::getrandom` filling the whole buffer; nothing can be
/// said of the values. Aborts when the system's random source fails, as the
/// process cannot continue without entropy.
#[verifier::external_body]
fn random_bytes(n: usize) -> (r: Vec<u8>)
    ensures
        r@.len() == n,
{
    let mut buf = vec![0u8; n];
    getrandom::getrandom(&mut buf[..]).expect("rng fatal");
    buf
}

impl Key {
    /// Whether the key has its full size.
    pub open spec fn wf(&self) -> bool {
        self@.len() == KEY_SIZE
    }

    /// A fresh random key.
    pub fn new() -> (k: Key)
        ensures
            k.wf(),
    {
        Key { bytes: random_bytes(KEY_SIZE) }
    }

    /// A key built from the given bytes: shorter input is padded with zero
    /// bytes, longer input is cut to [`KEY_SIZE`] bytes.
    pub fn from_bytes(input: &[u8]) -> (k: Key)
        ensures
            k.wf(),
            k@ == pad_or_cut(input@, KEY_SIZE as nat),
    {
        Key { bytes: pad_or_cut_exec(input, KEY_SIZE) }
    }

    /// The key's bytes.
    pub fn as_bytes(&self) -> (r: &[u8])
        ensures
            r@ == self@,
    {
        self.bytes.as_slice()
    }
}

impl IV {
    /// Whether the IV has its full size.
    pub open spec fn wf(&self) -> bool {
        self@.len() == IV_SIZE
    }

    /// A fresh random IV.
    pub fn new() -> (iv: IV)
        ensures
            iv.wf(),
    {
        IV { bytes: random_bytes(IV_SIZE) }
    }

    /// An IV built from the given bytes: shorter input is padded with zero
    /// bytes, longer input is cut to [`IV_SIZE`] bytes.
    pub fn from_bytes(input: &[u8]) -> (iv: IV)
        ensures
            iv.wf(),
            iv@ == pad_or_cut(input@, IV_SIZE as nat),
    {
        IV { bytes: pad_or_cut_exec(input, IV_SIZE) }
    }

    /// The IV's bytes.
    pub fn as_bytes(&self) -> (r: &[u8])
        ensures
            r@ == self@,
    {
        self.bytes.as_slice()
    }
}

/// `input` brought to exactly `n` bytes: cut when longer, padded with zero
/// bytes when shorter.
pub open spec fn pad_or_cut(input: Seq<u8>, n: nat) -> Seq<u8> {
    Seq::new(n, |i: int| if i < input.len() { input[i] } else { 0u8 })
}

fn pad_or_cut_exec(input: &[u8], n: usize) -> (r: Vec<u8>)
    ensures
        r@ == pad_or_cut(input@, n as nat),
{
    let mut out: Vec<u8> = Vec::new();
    let mut i: usize = 0;
    while i < n
        invariant
            i <= n,
            out@.len() == i,
            forall|j: int| 0 <= j < i ==> out@[j] == pad_or_cut(input@, n as nat)[j],
        decreases n - i,
    {
        if i < input.len() {
            out.push(input[i]);
        } else {
            out.push(0u8);
        }
        i = i + 1;
    }
    proof {
        assert(out@ =~= pad_or_cut(input@, n as nat));
    }
    out
}

/// A fresh random key and IV pair.
pub fn keygen() -> (r: (Key, IV))
    ensures
        r.0.wf(),
        r.1.wf(),
{
    (Key::new(), IV::new())
}

#[verifier::external_type_specification]
#[verifier::external_body]
pub struct ExCrypter(openssl::symm::Crypter);

#[verifier::external_type_specification]
#[verifier::external_body]
pub struct ExErrorStack(openssl::error::ErrorStack);

#[verifier::external_type_specification]
#[verifier::external_body]
pub struct ExIoError(std::io::Error);

/// The error the cipher's constructor reports.
pub type Error = openssl::error::ErrorStack;

/// The keystream byte that the ChaCha20-Poly1305 update step mixes into the
/// byte at absolute stream position `i`, for a stream keyed with `key` and
/// `iv`. The keystream depends on nothing else, and is the same whether the
/// stream encrypts or decrypts.
pub uninterp spec fn keystream(key: Seq<u8>, iv: Seq<u8>, i: nat) -> u8;

/// `data`, transformed by the cipher's update step starting at absolute
/// stream position `start`: each byte XORed with its keystream byte.
pub open spec fn xor_stream(key: Seq<u8>, iv: Seq<u8>, start: nat, data: Seq<u8>) -> Seq<u8> {
    Seq::new(data.len(), |i: int| data[i] ^ keystream(key, iv, (start + i) as nat))
}

/// One direction of the stream cipher, together with the absolute position
/// it has reached in its keystream.
pub struct StreamCipher {
    inner: openssl::symm::Crypter,
    key: Ghost<Seq<u8>>,
    iv: Ghost<Seq<u8>>,
    pos: Ghost<nat>,
}

/// Relies on openssl's `Crypter::new` with `Cipher::chacha20_poly1305`:
/// builds the cipher context for the given direction, key and IV. A key of
/// [`KEY_SIZE`] and an IV of [`IV_SIZE`] bytes are the sizes this cipher
/// accepts, so the constructor does not panic on them.
#[verifier::external_body]
fn new_crypter(encrypt: bool, key: &Key, iv: &IV) -> (r: Result<
    openssl::symm::Crypter,
    openssl::error::ErrorStack,
>)
    requires
        key.wf(),
        iv.wf(),
{
    openssl::symm::Crypter::new(
        openssl::symm::Cipher::chacha20_poly1305(),
        if encrypt {
            openssl::symm::Mode::Encrypt
        } else {
            openssl::symm::Mode::Decrypt
        },
        &key.bytes[..],
        Some(&iv.bytes[..]),
    )
}

/// Relies on openssl's `Crypter::update` with the ChaCha20-Poly1305 cipher:
/// the update step of this stream cipher writes exactly `input.len()` bytes,
/// each input byte XORed with the keystream byte at its absolute stream
/// position; encryption and decryption use the same keystream. The length
/// bound keeps the buffer within what the call accepts without panicking.
#[verifier::external_body]
fn update_bytes(c: &mut StreamCipher, input: &[u8]) -> (r: Result<Vec<u8>, std::io::Error>)
    requires
        input@.len() <= 0x7fff_ffff,
    ensures
        r is Ok ==> r->Ok_0@.len() == input@.len(),
        r is Ok ==> forall|j: int|
            0 <= j < input@.len() ==> r->Ok_0@[j] == (input@[j] ^ keystream(
                old(c).spec_key(),
                old(c).spec_iv(),
                (old(c).spec_pos() + j) as nat,
            )),
        r is Ok ==> final(c).spec_key() == old(c).spec_key()
            && final(c).spec_iv() == old(c).spec_iv()
            && final(c).spec_pos() == old(c).spec_pos() + input@.len(),
        r is Err ==> final(c).spec_key() == old(c).spec_key()
            && final(c).spec_iv() == old(c).spec_iv(),
{
    let mut out = vec![0u8; input.len()];
    match c.inner.update(input, &mut out[..]) {
        Ok(n) => {
            out.truncate(n);
            Ok(out)
        },
        Err(e) => Err(std::io::Error::from(e)),
    }
}

impl StreamCipher {
    /// The key the stream was built with.
    pub closed spec fn spec_key(&self) -> Seq<u8> {
        self.key@
    }

    /// The IV the stream was built with.
    pub closed spec fn spec_iv(&self) -> Seq<u8> {
        self.iv@
    }

    /// The absolute keystream position the stream has reached.
    pub closed spec fn spec_pos(&self) -> nat {
        self.pos@
    }

    /// A cipher stream at position zero for the given direction and keys.
    pub fn new(encrypt: bool, key: &Key, iv: &IV) -> (r: Result<StreamCipher, Error>)
        requires
            key.wf(),
            iv.wf(),
        ensures
            r is Ok ==> r->Ok_0.spec_key() == key@ && r->Ok_0.spec_iv() == iv@
                && r->Ok_0.spec_pos() == 0,
    {
        let inner = new_crypter(encrypt, key, iv)?;
        Ok(StreamCipher {
            inner,
            key: Ghost(key@),
            iv: Ghost(iv@),
            pos: Ghost(0nat),
        })
    }

    /// Feed `input` through the cipher and return the transformed bytes.
    ///
    /// The result is `input` XORed with the keystream at the positions the
    /// stream has reached, and the stream advances past them.
    pub fn update(&mut self, input: &[u8]) -> (r: Result<Vec<u8>, std::io::Error>)
        requires
            input@.len() <= 0x7fff_ffff,
        ensures
            r is Ok ==> r->Ok_0@ == xor_stream(
                old(self).spec_key(),
                old(self).spec_iv(),
                old(self).spec_pos(),
                input@,
            ),
            r is Ok ==> final(self).spec_key() == old(self).spec_key()
                && final(self).spec_iv() == old(self).spec_iv()
                && final(self).spec_pos() == old(self).spec_pos() + input@.len(),
            r is Err ==> final(self).spec_key() == old(self).spec_key()
                && final(self).spec_iv() == old(self).spec_iv(),
    {
        let r = update_bytes(self, input);
        proof {
            if r is Ok {
                assert(r->Ok_0@ =~= xor_stream(
                    old(self).spec_key(),
                    old(self).spec_iv(),
                    old(self).spec_pos(),
                    input@,
                ));
            }
        }
        r
    }
}

/// A cipher stream that encrypts, keyed with `key` and `iv`.
pub fn encrypter(key: &Key, iv: &IV) -> (r: Result<StreamCipher, Error>)
    requires
        key.wf(),
        iv.wf(),
    ensures
        r is Ok ==> r->Ok_0.spec_key() == key@ && r->Ok_0.spec_iv() == iv@ && r->Ok_0.spec_pos()
            == 0,
{
    StreamCipher::new(true, key, iv)
}

/// A cipher stream that decrypts, keyed with `key` and `iv`.
pub fn decrypter(key: &Key, iv: &IV) -> (r: Result<StreamCipher, Error>)
    requires
        key.wf(),
        iv.wf(),
    ensures
        r is Ok ==> r->Ok_0.spec_key() == key@ && r->Ok_0.spec_iv() == iv@ && r->Ok_0.spec_pos()
            == 0,
{
    StreamCipher::new(false, key, iv)
}

/// Law: transforming twice with the same keys and the same starting position
/// gives the bytes back — decrypting what was encrypted (or the other way
/// round) reproduces the original content exactly.
pub proof fn lemma_xor_stream_round_trip(key: Seq<u8>, iv: Seq<u8>, start: nat, data: Seq<u8>)
    ensures
        xor_stream(key, iv, start, xor_stream(key, iv, start, data)) == data,
{
    let once = xor_stream(key, iv, start, data);
    let twice = xor_stream(key, iv, start, once);
    assert forall|i: int| 0 <= i < data.len() implies twice[i] == data[i] by {
        let k = keystream(key, iv, (start + i) as nat);
        let d = data[i];
        assert((d ^ k) ^ k == d) by (bit_vector);
    }
    assert(twice =~= data);
}

/// Law: the transform of two ranges laid end to end is the two transforms
/// laid end to end, the second starting where the first stopped.
pub proof fn lemma_xor_stream_concat(key: Seq<u8>, iv: Seq<u8>, start: nat, a: Seq<u8>, b: Seq<u8>)
    ensures
        xor_stream(key, iv, start, a + b) == xor_stream(key, iv, start, a) + xor_stream(
            key,
            iv,
            start + a.len(),
            b,
        ),
{
    let lhs = xor_stream(key, iv, start, a + b);
    let rhs = xor_stream(key, iv, start, a) + xor_stream(key, iv, start + a.len(), b);
    assert forall|i: int| 0 <= i < lhs.len() implies lhs[i] == rhs[i] by {
        if i < a.len() {
            assert((a + b)[i] == a[i]);
        } else {
            assert((a + b)[i] == b[i - a.len()]);
        }
    }
    assert(lhs =~= rhs);
}

} // verus!
