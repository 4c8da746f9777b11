//! The twelve-byte header of a DNS message.

use vstd::prelude::*;
use crate::bytes::{
    be_bytes, be_value, lemma_be_bytes_len, lemma_number_reads_back, lemma_pow256_values, read_u16,
    write_u16,
};
use crate::cursor::Cursor;
use crate::protocol::ParseError;

verus! {

/// The flags of a plain recursive query.
pub const QUERY_ONLY_RECURSIVELY: u16 = 0x0100;

/// The flags of a recursive query with the authentic-data bit set.
pub const QUERY_RECURSIVELY_AD: u16 = 0x0120;

/// The header fields, as they stand on the wire.
#[derive(Debug, Clone, Copy, PartialEq, Eq, Structural)]
pub struct Header {
    pub id: u16,
    pub flags: u16,
    pub question_count: u16,
    pub answer_count: u16,
    pub authority_count: u16,
    pub additional_count: u16,
}

/// The 16-bit number at `pos` of `packet`, most significant byte first.
pub open spec fn u16_at(packet: Seq<u8>, pos: int) -> u16 {
    be_value(packet.subrange(pos, pos + 2)) as u16
}

/// The 32-bit number at `pos` of `packet`, most significant byte first.
pub open spec fn u32_at(packet: Seq<u8>, pos: int) -> u32 {
    be_value(packet.subrange(pos, pos + 4)) as u32
}

/// A 16-bit number that was written behind `front` is read back from
/// there.
pub proof fn lemma_u16_reads_back(front: Seq<u8>, value: u16, back: Seq<u8>)
    ensures
        u16_at(front + be_bytes(value as nat, 2) + back, front.len() as int) == value,
        be_bytes(value as nat, 2).len() == 2,
{
    lemma_pow256_values();
    lemma_be_bytes_len(value as nat, 2);
    lemma_number_reads_back(front, value as nat, 2, back);
}

/// A 32-bit number that was written behind `front` is read back from
/// there.
pub proof fn lemma_u32_reads_back(front: Seq<u8>, value: u32, back: Seq<u8>)
    ensures
        u32_at(front + be_bytes(value as nat, 4) + back, front.len() as int) == value,
        be_bytes(value as nat, 4).len() == 4,
{
    lemma_pow256_values();
    lemma_be_bytes_len(value as nat, 4);
    lemma_number_reads_back(front, value as nat, 4, back);
}

/// A header that is written is read back, but for the count of additional
/// records, which is written and read as zero.
pub proof fn lemma_header_round_trip(front: Seq<u8>, header: Header, back: Seq<u8>)
    ensures
        header.wire().len() == 12,
        Header::read_at(front + header.wire() + back, front.len() as int) == Ok::<
            (Header, int),
            ParseError,
        >((Header { additional_count: 0, ..header }, (front.len() + 12) as int)),
{
    let id = be_bytes(header.id as nat, 2);
    let flags = be_bytes(header.flags as nat, 2);
    let qd = be_bytes(header.question_count as nat, 2);
    let an = be_bytes(header.answer_count as nat, 2);
    let ns = be_bytes(header.authority_count as nat, 2);
    let ar = be_bytes(0, 2);
    let packet = front + header.wire() + back;
    lemma_be_bytes_len(0, 2);
    lemma_u16_reads_back(front, header.id, flags + qd + an + ns + ar + back);
    assert(packet =~= front + id + (flags + qd + an + ns + ar + back));
    lemma_u16_reads_back(front + id, header.flags, qd + an + ns + ar + back);
    assert(packet =~= front + id + flags + (qd + an + ns + ar + back));
    lemma_u16_reads_back(front + id + flags, header.question_count, an + ns + ar + back);
    assert(packet =~= front + id + flags + qd + (an + ns + ar + back));
    lemma_u16_reads_back(front + id + flags + qd, header.answer_count, ns + ar + back);
    assert(packet =~= front + id + flags + qd + an + (ns + ar + back));
    lemma_u16_reads_back(front + id + flags + qd + an, header.authority_count, ar + back);
    assert(packet =~= front + id + flags + qd + an + ns + (ar + back));
}

impl Header {
    /// The twelve bytes that stand for this header with `id` in place of its
    /// own id. The count of additional records is always written as zero.
    pub open spec fn wire_with_id(self, id: u16) -> Seq<u8> {
        be_bytes(id as nat, 2) + be_bytes(self.flags as nat, 2) + be_bytes(
            self.question_count as nat,
            2,
        ) + be_bytes(self.answer_count as nat, 2) + be_bytes(self.authority_count as nat, 2)
            + be_bytes(0, 2)
    }

    /// The twelve bytes that stand for this header.
    pub open spec fn wire(self) -> Seq<u8> {
        self.wire_with_id(self.id)
    }

    /// The header that starts at `pos` of `packet`, and the offset behind it.
    /// The count of additional records is read over and kept as zero.
    pub open spec fn read_at(packet: Seq<u8>, pos: int) -> Result<(Header, int), ParseError> {
        if pos + 12 > packet.len() {
            Err(ParseError::UnexpectedEnd)
        } else {
            Ok(
                (
                    Header {
                        id: u16_at(packet, pos),
                        flags: u16_at(packet, pos + 2),
                        question_count: u16_at(packet, pos + 4),
                        answer_count: u16_at(packet, pos + 6),
                        authority_count: u16_at(packet, pos + 8),
                        additional_count: 0,
                    },
                    pos + 12,
                ),
            )
        }
    }

    /// Whether the flags are those of a recursive query and the message asks
    /// exactly one question.
    pub open spec fn supported(self) -> bool {
        (self.flags == QUERY_ONLY_RECURSIVELY || self.flags == QUERY_RECURSIVELY_AD)
            && self.question_count == 1
    }

    /// A header with every field zero.
    pub fn new() -> (header: Self)
        ensures
            header == (Header {
                id: 0,
                flags: 0,
                question_count: 0,
                answer_count: 0,
                authority_count: 0,
                additional_count: 0,
            }),
    {
        Header {
            id: 0,
            flags: 0,
            question_count: 0,
            answer_count: 0,
            authority_count: 0,
            additional_count: 0,
        }
    }

    /// Reads the header under the cursor.
    pub fn from(cursor: &mut Cursor) -> (r: Result<Header, ParseError>)
        ensures
            final(cursor).bytes() == old(cursor).bytes(),
            match r {
                Ok(header) => Header::read_at(old(cursor).bytes(), old(cursor).position() as int)
                    == Ok::<(Header, int), ParseError>((header, final(cursor).position() as int)),
                Err(e) => Header::read_at(old(cursor).bytes(), old(cursor).position() as int)
                    == Err::<(Header, int), ParseError>(e),
            },
    {
        proof {
            cursor.lemma_len_fits();
        }
        if cursor.remaining() < 12 {
            return Err(ParseError::UnexpectedEnd);
        }
        let id = read_u16(cursor);
        let flags = read_u16(cursor);
        let question_count = read_u16(cursor);
        let answer_count = read_u16(cursor);
        let authority_count = read_u16(cursor);
        cursor.move_to(2);
        Ok(Header { id, flags, question_count, answer_count, authority_count, additional_count: 0 })
    }

    /// The bytes of this header.
    pub fn to_u8_vec(&self) -> (out: Vec<u8>)
        ensures
            out@ == self.wire(),
    {
        self.to_u8_with_id(self.id)
    }

    /// The bytes of this header with `id` in place of its own id.
    pub fn to_u8_with_id(&self, id: u16) -> (out: Vec<u8>)
        ensures
            out@ == self.wire_with_id(id),
    {
        let mut result: Vec<u8> = Vec::with_capacity(12);
        write_u16(&mut result, id);
        write_u16(&mut result, self.flags);
        write_u16(&mut result, self.question_count);
        write_u16(&mut result, self.answer_count);
        write_u16(&mut result, self.authority_count);
        write_u16(&mut result, 0);
        assert(result@ =~= self.wire_with_id(id));
        result
    }

    /// Whether the message carries no answer, as a query must.
    pub fn is_legal(&self) -> (legal: bool)
        ensures
            legal == (self.answer_count == 0),
    {
        !(self.answer_count > 0)
    }

    /// Whether the flags are those of a recursive query and the message asks
    /// exactly one question.
    pub fn is_supported(&self) -> (yes: bool)
        ensures
            yes == self.supported(),
    {
        let flag_supported = self.flags == QUERY_ONLY_RECURSIVELY || self.flags
            == QUERY_RECURSIVELY_AD;
        flag_supported && self.question_count == 1
    }
}

} // verus!
