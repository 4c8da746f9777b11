//! A canonical-name record.

use vstd::prelude::*;
use crate::cursor::Cursor;
use crate::protocol::answer::resource::basic::{BasicData, BasicDataView};
use crate::protocol::answer::resource::Resource;
use crate::protocol::{domain_at, unzip_domain, ParseError};

verus! {

/// A record whose data is another name for the name it is about.
#[derive(Debug)]
pub struct CnameResource {
    basic: BasicData,
    data: String,
}

/// What a [`CnameResource`] holds.
pub struct CnameResourceView {
    pub basic: BasicDataView,
    pub data: Seq<char>,
}

impl View for CnameResource {
    type V = CnameResourceView;

    closed spec fn view(&self) -> CnameResourceView {
        CnameResourceView { basic: self.basic@, data: self.data@ }
    }
}

/// The name that fills the `data_len` bytes at `pos` of `packet`, and the
/// offset behind it.
pub open spec fn cname_at(packet: Seq<u8>, pos: int, data_len: u16) -> Result<
    (Seq<char>, int),
    ParseError,
> {
    match domain_at(packet, pos) {
        Err(e) => Err(e),
        Ok((name, stop)) => if stop != pos + data_len {
            Err(ParseError::BadRecordData)
        } else {
            Ok((name, stop))
        },
    }
}

impl Resource<String> for CnameResource {
    open spec fn name_of(&self) -> Seq<char> {
        self@.basic.question.name
    }

    open spec fn ttl_of(&self) -> u32 {
        self@.basic.ttl
    }

    closed spec fn data_of(&self) -> String {
        self.data
    }

    fn get_name(&self) -> (name: &String) {
        self.basic.get_name()
    }

    fn get_ttl(&self) -> (ttl: u32) {
        self.basic.get_ttl()
    }

    fn get_data(&self) -> (data: &String)
        ensures
            data@ == self@.data,
    {
        &self.data
    }
}

impl CnameResource {
    /// Reads the data of a canonical-name record whose start is `basic`.
    pub fn create(basic: BasicData, cursor: &mut Cursor) -> (r: Result<CnameResource, ParseError>)
        ensures
            final(cursor).bytes() == old(cursor).bytes(),
            match r {
                Ok(resource) => cname_at(
                    old(cursor).bytes(),
                    old(cursor).position() as int,
                    basic@.data_len,
                ) == Ok::<(Seq<char>, int), ParseError>(
                    (resource@.data, final(cursor).position() as int),
                ) && resource@.basic == basic@,
                Err(e) => cname_at(
                    old(cursor).bytes(),
                    old(cursor).position() as int,
                    basic@.data_len,
                ) == Err::<(Seq<char>, int), ParseError>(e),
            },
    {
        proof {
            cursor.lemma_len_fits();
        }
        let start = cursor.get_current_index();
        let data = match unzip_domain(cursor) {
            Ok(data) => data,
            Err(e) => { return Err(e); },
        };
        let stop = cursor.get_current_index();
        if stop < start || stop - start != basic.get_data_len() as usize {
            return Err(ParseError::BadRecordData);
        }
        Ok(CnameResource { basic, data })
    }
}

} // verus!
