//! The DNS wire codec: domain names with pointer compression, the header,
//! the question, resource records and the answers built from them.

use vstd::prelude::*;
use vstd::utf8::{decode_utf8, encode_utf8, valid_utf8};
use crate::bytes::push_all;
use crate::cursor::Cursor;

pub mod answer;
pub mod basic;
pub mod header;
pub mod message;
pub mod query;
pub mod question;

verus! {

/// A length byte at or above this value starts a two-byte back-pointer.
pub const C_FACTOR: u8 = 192u8;

/// The low fourteen bits of a back-pointer: the offset it points at.
pub const DC_FACTOR: u16 = 16383u16;

/// How many back-pointers one name may follow before it is rejected.
pub const MAX_JUMPS: usize = 128;

/// Why a packet, or a part of one, could not be read.
#[derive(Debug, Clone, Copy, PartialEq, Eq, Structural)]
pub enum ParseError {
    /// The buffer ends before the item does.
    UnexpectedEnd,
    /// A name follows more back-pointers than `MAX_JUMPS`.
    TooManyJumps,
    /// A name is not valid UTF-8.
    BadName,
    /// The message carries a number of questions other than one.
    QuestionCount,
    /// A record's data does not have the shape its type calls for.
    BadRecordData,
    /// A record has a type that this codec does not serve.
    UnsupportedRecord,
}

/// Whether a length byte has its top two bits set.
pub open spec fn is_pointer(byte: u8) -> bool {
    byte >= 192
}

/// The offset that the two bytes of a back-pointer name.
pub open spec fn pointer_target(first: u8, second: u8) -> int {
    (first % 64) * 256 + second
}

/// The name that starts at `pos` of `packet`, with every back-pointer
/// followed: its labels, each behind its length byte, and the closing zero
/// byte; and the offset just behind the name where it stands. At most `jumps`
/// back-pointers are followed.
pub open spec fn name_at(packet: Seq<u8>, pos: int, jumps: nat) -> Result<(Seq<u8>, int), ParseError>
    decreases jumps, packet.len() - pos,
{
    if pos < 0 || pos >= packet.len() {
        Err(ParseError::UnexpectedEnd)
    } else if is_pointer(packet[pos]) {
        if jumps == 0 {
            Err(ParseError::TooManyJumps)
        } else if pos + 1 >= packet.len() {
            Err(ParseError::UnexpectedEnd)
        } else {
            match name_at(
                packet,
                pointer_target(packet[pos], packet[pos + 1]),
                (jumps - 1) as nat,
            ) {
                Ok((name, _)) => Ok((name, pos + 2)),
                Err(e) => Err(e),
            }
        }
    } else if packet[pos] == 0 {
        Ok((seq![0u8], pos + 1))
    } else {
        let end = pos + 1 + packet[pos];
        if end > packet.len() {
            Err(ParseError::UnexpectedEnd)
        } else {
            match name_at(packet, end, jumps) {
                Ok((rest, stop)) => Ok((packet.subrange(pos, end) + rest, stop)),
                Err(e) => Err(e),
            }
        }
    }
}

/// A name ends behind its start and within the packet.
pub proof fn lemma_name_at_bounds(packet: Seq<u8>, pos: int, jumps: nat)
    ensures
        name_at(packet, pos, jumps) matches Ok((_, stop)) ==> pos < stop <= packet.len(),
    decreases jumps, packet.len() - pos,
{
    if pos < 0 || pos >= packet.len() {
    } else if is_pointer(packet[pos]) {
    } else if packet[pos] == 0 {
    } else {
        let end = pos + 1 + packet[pos];
        if end <= packet.len() {
            lemma_name_at_bounds(packet, end, jumps);
        }
    }
}

/// The labels of an uncompressed wire name, each with a dot in front.
pub open spec fn dotted(wire: Seq<u8>) -> Seq<u8>
    decreases wire.len(),
{
    if wire.len() == 0 || wire[0] == 0 || wire.len() < 1 + wire[0] {
        Seq::<u8>::empty()
    } else {
        seq![46u8] + wire.subrange(1, 1 + wire[0]) + dotted(wire.skip(1 + wire[0]))
    }
}

/// The readable form of an uncompressed wire name: its labels joined by
/// dots, without the closing empty label. The root name reads as the empty
/// name.
pub open spec fn readable(wire: Seq<u8>) -> Seq<u8> {
    if dotted(wire).len() == 0 {
        Seq::<u8>::empty()
    } else {
        dotted(wire).skip(1)
    }
}

/// The index of the first dot in `name`, or its length where it has none.
pub open spec fn first_dot(name: Seq<u8>) -> int
    decreases name.len(),
{
    if name.len() == 0 || name[0] == 46 {
        0
    } else {
        1 + first_dot(name.skip(1))
    }
}

/// The labels of a non-empty readable name, each behind its length byte (the
/// length taken modulo 256), and the closing zero byte.
pub open spec fn wire_labels(name: Seq<u8>) -> Seq<u8>
    decreases name.len(),
{
    let cut = first_dot(name);
    let label = seq![(cut % 256) as u8] + name.take(cut);
    if cut < 0 || cut >= name.len() {
        label + seq![0u8]
    } else {
        label + wire_labels(name.skip(cut + 1))
    }
}

/// The wire form of a readable name: one zero byte for the empty name, else
/// the labels between its dots and the closing zero byte.
pub open spec fn wire_name(name: Seq<u8>) -> Seq<u8> {
    if name.len() == 0 {
        seq![0u8]
    } else {
        wire_labels(name)
    }
}

/// The first dot lies within the name, and no dot lies before it.
pub proof fn lemma_first_dot_range(name: Seq<u8>)
    ensures
        0 <= first_dot(name) <= name.len(),
        first_dot(name) < name.len() ==> name[first_dot(name)] == 46,
    decreases name.len(),
{
    if name.len() == 0 || name[0] == 46 {
    } else {
        lemma_first_dot_range(name.skip(1));
    }
}

/// Whether the labels of a non-empty readable name can be written and read
/// back: each has at least one byte and fewer than 192, so that its length
/// byte is neither the end of a name nor the start of a back-pointer.
pub open spec fn plain_labels(name: Seq<u8>) -> bool
    decreases name.len(),
{
    let cut = first_dot(name);
    0 < cut < 192 && (cut >= name.len() || plain_labels(name.skip(cut + 1)))
}

/// Whether a readable name can be written and read back: the empty name,
/// or one with plain labels.
pub open spec fn plain_name(name: Seq<u8>) -> bool {
    name.len() == 0 || plain_labels(name)
}

/// The labels of a name with plain labels, read back from their wire form,
/// are the name with a dot in front.
pub proof fn lemma_dotted_of_wire(name: Seq<u8>)
    requires
        plain_labels(name),
    ensures
        dotted(wire_labels(name)) == seq![46u8] + name,
    decreases name.len(),
{
    lemma_first_dot_range(name);
    let cut = first_dot(name);
    let wire = wire_labels(name);
    let label = seq![(cut % 256) as u8] + name.take(cut);
    assert(wire[0] == cut as u8);
    if cut >= name.len() {
        assert(wire =~= label + seq![0u8]);
        assert(wire.subrange(1, 1 + cut) =~= name);
        assert(wire.skip(1 + cut) =~= seq![0u8]);
        assert(dotted(seq![0u8]) =~= Seq::<u8>::empty());
        assert(dotted(wire) =~= seq![46u8] + name);
    } else {
        let rest = name.skip(cut + 1);
        lemma_dotted_of_wire(rest);
        assert(wire =~= label + wire_labels(rest));
        assert(wire.subrange(1, 1 + cut) =~= name.take(cut));
        assert(wire.skip(1 + cut) =~= wire_labels(rest));
        assert(seq![46u8] + name.take(cut) + (seq![46u8] + rest) =~= seq![46u8] + name);
    }
}

/// A plain name reads back from its wire form as it was.
pub proof fn lemma_readable_of_wire(name: Seq<u8>)
    requires
        plain_name(name),
    ensures
        readable(wire_name(name)) == name,
{
    if name.len() == 0 {
        assert(dotted(seq![0u8]) =~= Seq::<u8>::empty());
    } else {
        lemma_dotted_of_wire(name);
        assert((seq![46u8] + name).skip(1) =~= name);
    }
}

/// The wire form of the labels of a name with plain labels, wherever it
/// stands in a packet, is read there as it stands.
pub proof fn lemma_labels_are_read(front: Seq<u8>, name: Seq<u8>, back: Seq<u8>, jumps: nat)
    requires
        plain_labels(name),
    ensures
        name_at(front + wire_labels(name) + back, front.len() as int, jumps) == Ok::<
            (Seq<u8>, int),
            ParseError,
        >((wire_labels(name), (front.len() + wire_labels(name).len()) as int)),
    decreases name.len(),
{
    lemma_first_dot_range(name);
    let cut = first_dot(name);
    let wire = wire_labels(name);
    let packet = front + wire + back;
    let pos = front.len() as int;
    let label = seq![(cut % 256) as u8] + name.take(cut);
    assert(wire[0] == cut as u8);
    assert(packet[pos] == cut as u8);
    let end = pos + 1 + cut;
    assert(!is_pointer(packet[pos]) && packet[pos] != 0);
    if cut >= name.len() {
        assert(wire =~= label + seq![0u8]);
        assert(packet.subrange(pos, end) =~= label);
        assert(packet[end] == 0);
        assert(name_at(packet, end, jumps) == Ok::<(Seq<u8>, int), ParseError>(
            (seq![0u8], end + 1),
        ));
        assert(label + seq![0u8] =~= wire);
        assert(end + 1 == front.len() + wire.len());
    } else {
        let rest = name.skip(cut + 1);
        assert(wire =~= label + wire_labels(rest));
        assert(packet.subrange(pos, end) =~= label);
        assert(packet =~= front + label + wire_labels(rest) + back);
        lemma_labels_are_read(front + label, rest, back, jumps);
        assert((front + label).len() == end);
        assert(name_at(packet, end, jumps) == Ok::<(Seq<u8>, int), ParseError>(
            (wire_labels(rest), end + wire_labels(rest).len()),
        ));
    }
}

/// A plain name that is written is read back: wherever its wire form
/// stands in a packet, the name read there is that wire form, and the
/// readable name is the name written.
pub proof fn lemma_name_round_trip(front: Seq<u8>, name: Seq<char>, back: Seq<u8>)
    requires
        plain_name(encode_utf8(name)),
    ensures
        domain_at(front + name_wire(name) + back, front.len() as int) == Ok::<
            (Seq<char>, int),
            ParseError,
        >((name, (front.len() + name_wire(name).len()) as int)),
{
    let bytes = encode_utf8(name);
    let packet = front + name_wire(name) + back;
    lemma_readable_of_wire(bytes);
    vstd::utf8::encode_utf8_valid_utf8(name);
    vstd::utf8::encode_utf8_decode_utf8(name);
    if bytes.len() == 0 {
        assert(packet[front.len() as int] == 0);
    } else {
        lemma_labels_are_read(front, bytes, back, MAX_JUMPS as nat);
    }
}

/// Reads the name under the cursor, following back-pointers, and appends it
/// uncompressed to `name_vec`. The cursor ends just behind the name where it
/// stands in the stream.
pub fn parse_name(cursor: &mut Cursor, name_vec: &mut Vec<u8>) -> (r: Result<(), ParseError>)
    ensures
        final(cursor).bytes() == old(cursor).bytes(),
        match r {
            Ok(()) => name_at(old(cursor).bytes(), old(cursor).position() as int, MAX_JUMPS as nat)
                == Ok::<(Seq<u8>, int), ParseError>(
                ((final(name_vec)@.skip(old(name_vec)@.len() as int)), final(cursor).position() as int),
            ) && final(name_vec)@.take(old(name_vec)@.len() as int) == old(name_vec)@
                && old(name_vec)@.len() <= final(name_vec)@.len(),
            Err(e) => name_at(old(cursor).bytes(), old(cursor).position() as int, MAX_JUMPS as nat)
                == Err::<(Seq<u8>, int), ParseError>(e),
        },
{
    parse_name_within(cursor, name_vec, MAX_JUMPS)
}

fn parse_name_within(cursor: &mut Cursor, name_vec: &mut Vec<u8>, jumps: usize) -> (r: Result<
    (),
    ParseError,
>)
    ensures
        final(cursor).bytes() == old(cursor).bytes(),
        match r {
            Ok(()) => name_at(old(cursor).bytes(), old(cursor).position() as int, jumps as nat)
                == Ok::<(Seq<u8>, int), ParseError>(
                ((final(name_vec)@.skip(old(name_vec)@.len() as int)), final(cursor).position() as int),
            ) && final(name_vec)@.take(old(name_vec)@.len() as int) == old(name_vec)@
                && old(name_vec)@.len() <= final(name_vec)@.len(),
            Err(e) => name_at(old(cursor).bytes(), old(cursor).position() as int, jumps as nat)
                == Err::<(Seq<u8>, int), ParseError>(e),
        },
    decreases jumps, old(cursor).bytes().len() - old(cursor).position(),
{
    let ghost packet = cursor.bytes();
    let ghost pos = cursor.position() as int;
    let ghost before = name_vec@;
    if cursor.remaining() == 0 {
        return Err(ParseError::UnexpectedEnd);
    }
    let first = cursor.peek();
    assert((first & C_FACTOR == C_FACTOR) == (first >= 192)) by (bit_vector)
        requires
            C_FACTOR == 192u8,
    ;
    if first & C_FACTOR == C_FACTOR {
        if jumps == 0 {
            return Err(ParseError::TooManyJumps);
        }
        if cursor.remaining() < 2 {
            return Err(ParseError::UnexpectedEnd);
        }
        let high = cursor.take();
        let low = cursor.take();
        let c_index = high as u16 * 256 + low as u16;
        assert(c_index & DC_FACTOR == (high % 64) as u16 * 256 + low as u16) by (bit_vector)
            requires
                c_index == high as u16 * 256 + low as u16,
                DC_FACTOR == 16383u16,
        ;
        let target = (c_index & DC_FACTOR) as usize;
        let saved = cursor.get_current_index();
        cursor.at(target);
        let r = parse_name_within(cursor, name_vec, jumps - 1);
        cursor.at(saved);
        r
    } else if first == 0 {
        let zero = cursor.take();
        name_vec.push(zero);
        assert(name_vec@.skip(before.len() as int) =~= seq![0u8]);
        assert(name_vec@.take(before.len() as int) =~= before);
        Ok(())
    } else {
        let len = first as usize + 1;
        if cursor.remaining() < len {
            return Err(ParseError::UnexpectedEnd);
        }
        let segment = cursor.take_slice(len);
        push_all(name_vec, segment);
        let ghost middle = name_vec@;
        let r = parse_name_within(cursor, name_vec, jumps);
        proof {
            if r is Ok {
                let label = packet.subrange(pos, pos + len);
                assert(middle == before + label);
                let rest = name_vec@.skip(middle.len() as int);
                assert(name_vec@.take(middle.len() as int) == middle);
                assert(name_vec@ =~= middle + rest);
                assert(name_vec@.skip(before.len() as int) =~= label + rest);
                assert(name_vec@.take(before.len() as int) =~= before);
            }
        }
        r
    }
}

/// `cut` is the first dot of `name` when no dot stands before it and either
/// a dot or the end of the name stands at it.
pub proof fn lemma_first_dot_is(name: Seq<u8>, cut: int)
    requires
        0 <= cut <= name.len(),
        forall|i: int| 0 <= i < cut ==> name[i] != 46,
        cut == name.len() || name[cut] == 46,
    ensures
        first_dot(name) == cut,
    decreases name.len(),
{
    if cut > 0 {
        assert(name[0] != 46);
        let tail = name.skip(1);
        assert forall|i: int| 0 <= i < cut - 1 implies tail[i] != 46 by {
            assert(tail[i] == name[i + 1]);
        }
        lemma_first_dot_is(tail, cut - 1);
    }
}

/// The readable form of an uncompressed wire name.
pub fn readable_name(wire: &[u8]) -> (out: Vec<u8>)
    ensures
        out@ == readable(wire@),
{
    let n = wire.len();
    let mut out: Vec<u8> = Vec::new();
    let mut i: usize = 0;
    let mut done = false;
    assert(wire@.skip(0) =~= wire@);
    while !done
        invariant
            n == wire@.len(),
            i <= n,
            dotted(wire@) == out@ + if done {
                Seq::<u8>::empty()
            } else {
                dotted(wire@.skip(i as int))
            },
        decreases n - i + if done { 0int } else { 1int },
    {
        let ghost rest = wire@.skip(i as int);
        if i >= n {
            done = true;
        } else if wire[i] == 0 || n - i < 1 + wire[i] as usize {
            assert(rest[0] == wire@[i as int]);
            done = true;
        } else {
            let len = wire[i] as usize;
            assert(rest[0] == wire@[i as int]);
            out.push(46u8);
            push_all(&mut out, vstd::slice::slice_subrange(wire, i + 1, i + 1 + len));
            proof {
                assert(rest.subrange(1, 1 + len) =~= wire@.subrange(i + 1, i + 1 + len));
                assert(rest.skip(1 + len) =~= wire@.skip(i + 1 + len));
            }
            i = i + 1 + len;
        }
    }
    assert(dotted(wire@) =~= out@);
    if out.len() > 0 {
        out.remove(0);
        assert(out@ =~= dotted(wire@).skip(1));
    }
    out
}

/// The wire form of a readable name given as bytes.
pub fn wire_of(name: &[u8]) -> (out: Vec<u8>)
    ensures
        out@ == wire_name(name@),
{
    let n = name.len();
    let mut out: Vec<u8> = Vec::new();
    if n == 0 {
        out.push(0u8);
        assert(out@ =~= seq![0u8]);
        return out;
    }
    let mut start: usize = 0;
    let mut done = false;
    assert(name@.skip(0) =~= name@);
    while !done
        invariant
            n == name@.len(),
            start <= n,
            wire_labels(name@) == out@ + if done {
                Seq::<u8>::empty()
            } else {
                wire_labels(name@.skip(start as int))
            },
        decreases n - start + if done { 0int } else { 1int },
    {
        let ghost rest = name@.skip(start as int);
        let mut end: usize = start;
        while end < n && name[end] != 46
            invariant
                n == name@.len(),
                start <= end <= n,
                forall|k: int| start <= k < end ==> name@[k] != 46,
            decreases n - end,
        {
            end = end + 1;
        }
        proof {
            assert forall|i: int| 0 <= i < end - start implies rest[i] != 46 by {
                assert(rest[i] == name@[start + i]);
            }
            lemma_first_dot_is(rest, end - start);
            assert(rest.take(end - start) =~= name@.subrange(start as int, end as int));
        }
        out.push(((end - start) % 256) as u8);
        push_all(&mut out, vstd::slice::slice_subrange(name, start, end));
        if end >= n {
            out.push(0u8);
            done = true;
        } else {
            proof {
                assert(rest.skip(end - start + 1) =~= name@.skip(end + 1));
            }
            start = end + 1;
        }
    }
    out
}

/// Turns bytes into a string.
///
/// Wraps std's `String::from_utf8`, which returns the string that the bytes
/// encode and fails exactly when they are not valid UTF-8.
#[verifier::external_body]
pub(crate) fn string_from_utf8(bytes: Vec<u8>) -> (out: Option<String>)
    ensures
        out is Some <==> valid_utf8(bytes@),
        out matches Some(s) ==> s@ == decode_utf8(bytes@) && encode_utf8(s@) == bytes@,
{
    String::from_utf8(bytes).ok()
}

/// The wire form of a name given as a string.
pub open spec fn name_wire(name: Seq<char>) -> Seq<u8> {
    wire_name(encode_utf8(name))
}

/// The readable name that starts at `pos` of `packet`, and the offset just
/// behind it.
pub open spec fn domain_at(packet: Seq<u8>, pos: int) -> Result<(Seq<char>, int), ParseError> {
    match name_at(packet, pos, MAX_JUMPS as nat) {
        Err(e) => Err(e),
        Ok((wire, stop)) => if valid_utf8(readable(wire)) {
            Ok((decode_utf8(readable(wire)), stop))
        } else {
            Err(ParseError::BadName)
        },
    }
}

/// Reads the name under the cursor, following back-pointers, as a readable
/// dotted name.
pub fn unzip_domain(cursor: &mut Cursor) -> (r: Result<String, ParseError>)
    ensures
        final(cursor).bytes() == old(cursor).bytes(),
        match r {
            Ok(name) => domain_at(old(cursor).bytes(), old(cursor).position() as int) == Ok::<
                (Seq<char>, int),
                ParseError,
            >((name@, final(cursor).position() as int)),
            Err(e) => domain_at(old(cursor).bytes(), old(cursor).position() as int) == Err::<
                (Seq<char>, int),
                ParseError,
            >(e),
        },
{
    let mut domain_vec: Vec<u8> = Vec::new();
    match parse_name(cursor, &mut domain_vec) {
        Err(e) => Err(e),
        Ok(()) => {
            assert(domain_vec@.skip(0) =~= domain_vec@);
            let text = readable_name(domain_vec.as_slice());
            match string_from_utf8(text) {
                Some(name) => Ok(name),
                None => Err(ParseError::BadName),
            }
        },
    }
}

/// The wire form of `name`: its labels, each behind its length byte, and the
/// closing zero byte.
pub fn wrap_name(name: &String) -> (out: Vec<u8>)
    ensures
        out@ == name_wire(name@),
{
    wire_of(name.as_str().as_bytes())
}

/// The wire form of `domain`.
pub fn wrap_dns_domain(domain: &str) -> (out: Vec<u8>)
    ensures
        out@ == name_wire(domain@),
{
    wire_of(domain.as_bytes())
}

} // verus!
