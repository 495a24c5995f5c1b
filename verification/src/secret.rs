//! Buffers that hold key material and are overwritten when they are dropped.

use vstd::prelude::*;

verus! {

/// `Zeroize::zeroize` for an array of bytes: every byte is zero afterwards.
#[verifier::external_body]
fn wipe_array<const N: usize>(bytes: &mut [u8; N])
    ensures
        final(bytes)@ == Seq::new(N as nat, |i: int| 0u8),
    opens_invariants none
    no_unwind
{
    zeroize::Zeroize::zeroize(bytes)
}

/// `Zeroize::zeroize` for a vector of bytes: it overwrites the bytes with zeros and empties the
/// vector.
#[verifier::external_body]
fn wipe_vec(bytes: &mut Vec<u8>)
    ensures
        final(bytes)@ == Seq::<u8>::empty(),
    opens_invariants none
    no_unwind
{
    zeroize::Zeroize::zeroize(bytes)
}

/// `Zeroize::zeroize` for a text: it overwrites the bytes with zeros and empties the text.
#[verifier::external_body]
fn wipe_string(text: &mut String)
    ensures
        final(text)@ == Seq::<char>::empty(),
    opens_invariants none
    no_unwind
{
    zeroize::Zeroize::zeroize(text)
}

/// `N` secret bytes, overwritten with zeros when they are dropped.
pub struct SecretBytes<const N: usize> {
    bytes: [u8; N],
}

impl<const N: usize> View for SecretBytes<N> {
    type V = Seq<u8>;

    closed spec fn view(&self) -> Seq<u8> {
        self.bytes@
    }
}

impl<const N: usize> Drop for SecretBytes<N> {
    fn drop(&mut self)
        ensures
            final(self)@ == Seq::new(N as nat, |i: int| 0u8),
        opens_invariants none
        no_unwind
    {
        wipe_array(&mut self.bytes);
    }
}

impl<const N: usize> SecretBytes<N> {
    /// Every value holds `N` bytes.
    pub broadcast proof fn lemma_len(&self)
        ensures
            #[trigger] self@.len() == N,
    {
    }

    /// Takes the bytes over.
    pub fn new(bytes: [u8; N]) -> (r: Self)
        ensures
            r@ == bytes@,
    {
        SecretBytes { bytes }
    }

    /// `N` zero bytes.
    pub fn zeroed() -> (r: Self)
        ensures
            r@ == Seq::new(N as nat, |i: int| 0u8),
    {
        SecretBytes { bytes: [0u8;N] }
    }

    /// The bytes, to be read.
    pub fn as_array(&self) -> (r: &[u8; N])
        ensures
            r@ == self@,
    {
        &self.bytes
    }

    /// Writes one of the bytes.
    pub fn set(&mut self, i: usize, byte: u8)
        requires
            i < N,
        ensures
            final(self)@ == old(self)@.update(i as int, byte),
    {
        self.bytes[i] = byte;
    }

    /// The bytes, to be written.
    pub(crate) fn as_mut_array(&mut self) -> (r: &mut [u8; N])
        ensures
            r@ == old(self)@,
            final(self)@ == final(r)@,
    {
        &mut self.bytes
    }
}

/// Secret bytes of any number, overwritten with zeros when they are dropped.
pub struct SecretBuffer {
    bytes: Vec<u8>,
}

impl View for SecretBuffer {
    type V = Seq<u8>;

    closed spec fn view(&self) -> Seq<u8> {
        self.bytes@
    }
}

impl Drop for SecretBuffer {
    fn drop(&mut self)
        ensures
            final(self)@ == Seq::<u8>::empty(),
        opens_invariants none
        no_unwind
    {
        wipe_vec(&mut self.bytes);
    }
}

impl SecretBuffer {
    /// Takes the bytes over.
    pub fn new(bytes: Vec<u8>) -> (r: Self)
        ensures
            r@ == bytes@,
    {
        SecretBuffer { bytes }
    }

    /// The bytes, to be read.
    pub fn as_slice(&self) -> (r: &[u8])
        ensures
            r@ == self@,
    {
        self.bytes.as_slice()
    }
}

/// A secret text, overwritten with zeros when it is dropped.
pub struct SecretText {
    text: String,
}

impl View for SecretText {
    type V = Seq<char>;

    closed spec fn view(&self) -> Seq<char> {
        self.text@
    }
}

impl Drop for SecretText {
    fn drop(&mut self)
        ensures
            final(self)@ == Seq::<char>::empty(),
        opens_invariants none
        no_unwind
    {
        wipe_string(&mut self.text);
    }
}

impl SecretText {
    /// An empty text with room for `capacity` bytes, so that a text that fits is never moved.
    pub fn with_capacity(capacity: usize) -> (r: Self)
        requires
            capacity <= isize::MAX,
        ensures
            r@ == Seq::<char>::empty(),
    {
        SecretText { text: String::with_capacity(capacity) }
    }

    /// A copy of a text.
    pub fn from_text(text: &str) -> (r: Self)
        ensures
            r@ == text@,
    {
        SecretText { text: text.to_owned() }
    }

    /// Appends a character.
    pub fn push(&mut self, c: char)
        ensures
            final(self)@ == old(self)@.push(c),
    {
        self.text.push(c);
    }

    /// Appends a text.
    pub fn push_str(&mut self, text: &str)
        ensures
            final(self)@ == old(self)@ + text@,
    {
        self.text.append(text);
    }

    /// The text, to be read.
    pub fn as_str(&self) -> (r: &str)
        ensures
            r@ == self@,
    {
        self.text.as_str()
    }
}

/// Overwrites a password with zeros and leaves it empty.
pub fn wipe_password(password: &mut String)
    ensures
        final(password)@ == Seq::<char>::empty(),
{
    wipe_string(password);
}

}
