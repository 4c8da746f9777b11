//! An IPv4 address record.

use vstd::prelude::*;
use crate::bytes::{be_bytes, push_all, write_u16};
use crate::cursor::Cursor;
use crate::protocol::answer::resource::basic::{BasicData, BasicDataView};
use crate::protocol::answer::resource::Resource;
use crate::protocol::ParseError;

verus! {

/// A record whose data is the four bytes of an IPv4 address.
#[derive(Debug)]
pub struct Ipv4Resource {
    basic: BasicData,
    data: [u8; 4],
}

/// What an [`Ipv4Resource`] holds.
pub struct Ipv4ResourceView {
    pub basic: BasicDataView,
    pub data: Seq<u8>,
}

impl View for Ipv4Resource {
    type V = Ipv4ResourceView;

    closed spec fn view(&self) -> Ipv4ResourceView {
        Ipv4ResourceView { basic: self.basic@, data: self.data@ }
    }
}

impl Clone for Ipv4Resource {
    fn clone(&self) -> (copy: Self)
        ensures
            copy@ == self@,
    {
        Ipv4Resource { basic: self.basic.clone(), data: self.data }
    }
}

/// The address that fills the `data_len` bytes at `pos` of `packet`, and the
/// offset behind it. An address has exactly four bytes.
pub open spec fn address_at(packet: Seq<u8>, pos: int, data_len: u16) -> Result<
    (Seq<u8>, int),
    ParseError,
> {
    if data_len != 4 {
        Err(ParseError::BadRecordData)
    } else if pos + 4 > packet.len() {
        Err(ParseError::UnexpectedEnd)
    } else {
        Ok((packet.subrange(pos, pos + 4), pos + 4))
    }
}

impl Ipv4ResourceView {
    /// The bytes of the record: its start, the length four, the address.
    pub open spec fn wire(self) -> Seq<u8> {
        self.basic.head_wire() + be_bytes(4, 2) + self.data
    }
}

impl Resource<[u8; 4]> for Ipv4Resource {
    open spec fn name_of(&self) -> Seq<char> {
        self@.basic.question.name
    }

    open spec fn ttl_of(&self) -> u32 {
        self@.basic.ttl
    }

    closed spec fn data_of(&self) -> [u8; 4] {
        self.data
    }

    fn get_name(&self) -> (name: &String) {
        self.basic.get_name()
    }

    fn get_ttl(&self) -> (ttl: u32) {
        self.basic.get_ttl()
    }

    fn get_data(&self) -> (data: &[u8; 4])
        ensures
            data@ == self@.data,
    {
        &self.data
    }
}

impl Ipv4Resource {
    /// Puts a record together from its start and its address.
    pub fn from(basic: BasicData, data: [u8; 4]) -> (resource: Self)
        ensures
            resource@ == (Ipv4ResourceView { basic: basic@, data: data@ }),
    {
        Ipv4Resource { basic, data }
    }

    /// Reads the data of an address record whose start is `basic`.
    pub fn create(basic: BasicData, cursor: &mut Cursor) -> (r: Result<Ipv4Resource, ParseError>)
        ensures
            final(cursor).bytes() == old(cursor).bytes(),
            match r {
                Ok(resource) => address_at(
                    old(cursor).bytes(),
                    old(cursor).position() as int,
                    basic@.data_len,
                ) == Ok::<(Seq<u8>, int), ParseError>(
                    (resource@.data, final(cursor).position() as int),
                ) && resource@.basic == basic@,
                Err(e) => address_at(
                    old(cursor).bytes(),
                    old(cursor).position() as int,
                    basic@.data_len,
                ) == Err::<(Seq<u8>, int), ParseError>(e),
            },
    {
        if basic.get_data_len() != 4 {
            return Err(ParseError::BadRecordData);
        }
        if cursor.remaining() < 4 {
            return Err(ParseError::UnexpectedEnd);
        }
        let data = cursor.take_bytes::<4>();
        Ok(Ipv4Resource { basic, data })
    }

    pub fn set_name(&mut self, name: String)
        ensures
            final(self)@ == (Ipv4ResourceView {
                basic: old(self)@.basic.with_name(name@),
                ..old(self)@
            }),
    {
        self.basic.set_name(name);
    }

    /// The bytes of the record.
    pub fn to_bytes(&self) -> (out: Vec<u8>)
        ensures
            out@ == self@.wire(),
    {
        let mut vec = self.basic.head_bytes();
        write_u16(&mut vec, 4);
        push_all(&mut vec, self.data.as_slice());
        vec
    }
}

} // verus!
