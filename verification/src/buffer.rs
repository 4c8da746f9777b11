//! The buffer that one datagram is received into and read from.

use vstd::prelude::*;
use vstd::slice::slice_subrange;

verus! {

/// The most bytes of a datagram that are kept.
pub const PACKET_SIZE: usize = 512;

/// 512 bytes and a position among them.
pub struct PacketBuffer {
    buf: Vec<u8>,
    current: usize,
}

impl PacketBuffer {
    /// The bytes of the buffer.
    pub closed spec fn bytes(&self) -> Seq<u8> {
        self.buf@
    }

    /// The index of the next byte to be read.
    pub closed spec fn position(&self) -> nat {
        self.current as nat
    }

    /// A buffer of zeros, to be read from its start.
    pub fn new() -> (buffer: Self)
        ensures
            buffer.bytes().len() == PACKET_SIZE,
            forall|i: int| 0 <= i < PACKET_SIZE ==> buffer.bytes()[i] == 0,
            buffer.position() == 0,
    {
        PacketBuffer { buf: vec![0u8; 512], current: 0 }
    }

    /// The bytes of the buffer, to be written into.
    pub fn as_mut_slice(&mut self) -> (slice: &mut [u8])
        ensures
            slice@ == old(self).bytes(),
            final(self).bytes() == final(slice)@,
            final(self).position() == old(self).position(),
    {
        self.buf.as_mut_slice()
    }

    /// A copy of the bytes of the buffer.
    pub fn to_vec(&self) -> (out: Vec<u8>)
        ensures
            out@ == self.bytes(),
    {
        vstd::slice::slice_to_vec(self.buf.as_slice())
    }

    /// Moves the position to `index`.
    pub fn at(&mut self, index: usize)
        ensures
            final(self).bytes() == old(self).bytes(),
            final(self).position() == index,
    {
        self.current = index;
    }

    /// Runs `func` with the position moved to `index`, then puts the
    /// position back where it was.
    pub fn tmp_at<F: FnOnce(&mut PacketBuffer)>(&mut self, index: usize, func: F)
        requires
            forall|b: &mut PacketBuffer|
                b.bytes() == old(self).bytes() && b.position() == index ==> func.requires((b,)),
        ensures
            final(self).position() == old(self).position(),
            exists|b: &mut PacketBuffer|
                b.bytes() == old(self).bytes() && b.position() == index && func.ensures((b,), ())
                    && final(self).bytes() == final(b).bytes(),
    {
        let current_index_saved = self.get_current_index();
        self.at(index);
        func(self);
        self.at(current_index_saved);
    }

    /// Reads the byte at the position and steps past it.
    pub fn take(&mut self) -> (byte: u8)
        requires
            old(self).position() < old(self).bytes().len(),
        ensures
            byte == old(self).bytes()[old(self).position() as int],
            final(self).bytes() == old(self).bytes(),
            final(self).position() == old(self).position() + 1,
    {
        proof {
            vstd::std_specs::vec::axiom_spec_len(&self.buf);
        }
        let result: u8 = self.buf[self.current];
        self.current = self.current + 1;
        result
    }

    /// Steps `step` bytes forward without reading.
    pub fn move_to(&mut self, step: usize)
        requires
            old(self).position() + step <= usize::MAX,
        ensures
            final(self).bytes() == old(self).bytes(),
            final(self).position() == old(self).position() + step,
    {
        self.current = self.current + step;
    }

    /// Reads the byte at the position and stays there.
    pub fn peek(&self) -> (byte: u8)
        requires
            self.position() < self.bytes().len(),
        ensures
            byte == self.bytes()[self.position() as int],
    {
        self.buf[self.current]
    }

    /// The index of the next byte to be read.
    pub fn get_current_index(&self) -> (index: usize)
        ensures
            index == self.position(),
    {
        self.current
    }

    /// Reads the next `len` bytes and steps past them.
    pub fn take_slice(&mut self, len: usize) -> (part: &[u8])
        requires
            old(self).position() + len <= old(self).bytes().len(),
        ensures
            part@ == old(self).bytes().subrange(
                old(self).position() as int,
                old(self).position() + len,
            ),
            final(self).bytes() == old(self).bytes(),
            final(self).position() == old(self).position() + len,
    {
        proof {
            vstd::std_specs::vec::axiom_spec_len(&self.buf);
        }
        let start = self.current;
        self.current = self.current + len;
        slice_subrange(self.buf.as_slice(), start, start + len)
    }
}

} // verus!
