//! A position-tracked reader over an immutable byte buffer.
//!
//! The cursor never reads past the end of its buffer: every read states the
//! room it needs, and [`Cursor::remaining`] lets a caller test for that room
//! before it reads.

use vstd::prelude::*;
use vstd::slice::slice_subrange;

verus! {

/// A random-access store of bytes that a [`Cursor`] can walk.
pub trait Array {
    /// The bytes held, first to last.
    spec fn elements(&self) -> Seq<u8>;

    /// The number of bytes held.
    fn size(&self) -> (n: usize)
        ensures
            n == self.elements().len(),
    ;

    /// The byte at `index`.
    fn get(&self, index: usize) -> (byte: u8)
        requires
            index < self.elements().len(),
        ensures
            byte == self.elements()[index as int],
    ;

    /// The bytes from `start` up to, not including, `end`.
    fn get_slice(&self, start: usize, end: usize) -> (part: &[u8])
        requires
            start <= end <= self.elements().len(),
        ensures
            part@ == self.elements().subrange(start as int, end as int),
    ;
}

impl Array for Vec<u8> {
    open spec fn elements(&self) -> Seq<u8> {
        self@
    }

    fn size(&self) -> (n: usize) {
        self.len()
    }

    fn get(&self, index: usize) -> (byte: u8) {
        self[index]
    }

    fn get_slice(&self, start: usize, end: usize) -> (part: &[u8]) {
        slice_subrange(self.as_slice(), start, end)
    }
}

/// Copies a slice of exactly `N` bytes into an array.
///
/// Wraps std's `TryFrom<&[u8]> for [u8; N]`, which succeeds exactly when the
/// slice has `N` elements and then copies them in order.
#[verifier::external_body]
fn array_from_slice<const N: usize>(part: &[u8]) -> (out: [u8; N])
    requires
        part@.len() == N,
    ensures
        out@ == part@,
{
    <[u8; N]>::try_from(part).unwrap()
}

/// A reader that walks a byte buffer from front to back and can jump.
pub struct Cursor {
    array: Vec<u8>,
    current: usize,
}

impl Cursor {
    /// The bytes under the cursor. No operation changes them.
    pub closed spec fn bytes(&self) -> Seq<u8> {
        self.array.elements()
    }

    /// The index of the next byte to be read.
    pub closed spec fn position(&self) -> nat {
        self.current as nat
    }

    /// The next `count` bytes from the cursor on.
    pub open spec fn upcoming(&self, count: int) -> Seq<u8> {
        self.bytes().subrange(self.position() as int, self.position() + count)
    }

    /// The buffer is no longer than an index can tell.
    pub proof fn lemma_len_fits(&self)
        ensures
            self.bytes().len() <= usize::MAX,
    {
        vstd::std_specs::vec::axiom_spec_len(&self.array);
    }

    /// Starts reading `array` at its first byte.
    pub fn form(array: Vec<u8>) -> (cursor: Self)
        ensures
            cursor.bytes() == array@,
            cursor.position() == 0,
    {
        Cursor { array, current: 0 }
    }

    /// Starts reading `buf` at its first byte.
    pub fn from(buf: Vec<u8>) -> (cursor: Self)
        ensures
            cursor.bytes() == buf@,
            cursor.position() == 0,
    {
        Cursor::form(buf)
    }

    /// The length of the buffer.
    pub fn len(&self) -> (n: usize)
        ensures
            n == self.bytes().len(),
    {
        self.array.size()
    }

    /// How many bytes lie between the cursor and the end of the buffer; zero
    /// when the cursor stands at or past the end.
    pub fn remaining(&self) -> (n: usize)
        ensures
            n == if self.position() <= self.bytes().len() {
                self.bytes().len() - self.position()
            } else {
                0
            },
    {
        let n = self.array.size();
        if self.current <= n {
            n - self.current
        } else {
            0
        }
    }

    /// Moves the cursor to `index`.
    pub fn at(&mut self, index: usize)
        ensures
            final(self).bytes() == old(self).bytes(),
            final(self).position() == index,
    {
        self.current = index;
    }

    /// Runs `func` with the cursor moved to `index`, then puts the cursor back
    /// where it was, whatever position `func` left it at. What comes back is
    /// what `func` returned from a cursor over the same bytes at `index`.
    pub fn tmp_at<T, F: FnOnce(&mut Cursor) -> T>(&mut self, index: usize, func: F) -> (out: T)
        requires
            forall|c: &mut Cursor|
                c.bytes() == old(self).bytes() && c.position() == index ==> func.requires((c,)),
            forall|c: &mut Cursor, t: T| func.ensures((c,), t) ==> final(c).bytes() == c.bytes(),
        ensures
            final(self).bytes() == old(self).bytes(),
            final(self).position() == old(self).position(),
            exists|c: &mut Cursor|
                c.bytes() == old(self).bytes() && c.position() == index && func.ensures((c,), out),
    {
        let saved = self.get_current_index();
        self.at(index);
        let out = func(self);
        self.at(saved);
        out
    }

    /// Reads the byte under the cursor and steps past it.
    pub fn take(&mut self) -> (byte: u8)
        requires
            old(self).position() < old(self).bytes().len(),
        ensures
            byte == old(self).bytes()[old(self).position() as int],
            final(self).bytes() == old(self).bytes(),
            final(self).position() == old(self).position() + 1,
    {
        proof {
            self.lemma_len_fits();
        }
        let result = self.array.get(self.current);
        self.current = self.current + 1;
        result
    }

    /// Steps the cursor `step` bytes forward without reading.
    pub fn move_to(&mut self, step: usize)
        requires
            old(self).position() + step <= usize::MAX,
        ensures
            final(self).bytes() == old(self).bytes(),
            final(self).position() == old(self).position() + step,
    {
        self.current = self.current + step;
    }

    /// Reads the byte under the cursor and leaves the cursor where it is.
    pub fn peek(&self) -> (byte: u8)
        requires
            self.position() < self.bytes().len(),
        ensures
            byte == self.bytes()[self.position() as int],
    {
        self.array.get(self.current)
    }

    /// The index of the next byte to be read.
    pub fn get_current_index(&self) -> (index: usize)
        ensures
            index == self.position(),
    {
        self.current
    }

    /// Reads the next `len` bytes and steps past them.
    pub fn take_slice(&mut self, len: usize) -> (part: &[u8])
        requires
            old(self).position() + len <= old(self).bytes().len(),
        ensures
            part@ == old(self).upcoming(len as int),
            final(self).bytes() == old(self).bytes(),
            final(self).position() == old(self).position() + len,
    {
        proof {
            self.lemma_len_fits();
        }
        let start = self.current;
        self.current = self.current + len;
        self.array.get_slice(start, start + len)
    }

    /// Reads the next `N` bytes into an array and steps past them.
    pub fn take_bytes<const N: usize>(&mut self) -> (out: [u8; N])
        requires
            old(self).position() + N <= old(self).bytes().len(),
        ensures
            out@ == old(self).upcoming(N as int),
            final(self).bytes() == old(self).bytes(),
            final(self).position() == old(self).position() + N,
    {
        let part = self.take_slice(N);
        array_from_slice::<N>(part)
    }
}

} // verus!
