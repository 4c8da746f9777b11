//! The answer that reports that the name does not exist.

use vstd::prelude::*;
use crate::cache::cache_record::CacheRecord;
use crate::protocol::answer::Answer;
use crate::protocol::basic::{BasicData, BasicDataView};

verus! {

/// The flags of an answer that reports that the name does not exist.
pub const FLAGS_NO_SUCH_NAME: u16 = 0x8183;

/// An answer without records whose flags report that the name does not
/// exist.
#[derive(Debug)]
pub struct NoSuchNameAnswer {
    data: BasicData,
}

impl View for NoSuchNameAnswer {
    type V = BasicDataView;

    closed spec fn view(&self) -> BasicDataView {
        self.data@
    }
}

impl Clone for NoSuchNameAnswer {
    fn clone(&self) -> (copy: Self)
        ensures
            copy@ == self@,
    {
        NoSuchNameAnswer { data: self.data.clone() }
    }
}

impl Answer for NoSuchNameAnswer {
    open spec fn id_of(&self) -> u16 {
        self@.header.id
    }

    open spec fn wire(&self) -> Seq<u8> {
        self@.wire()
    }

    open spec fn cacheable(&self) -> bool {
        false
    }

    fn to_cache(&self, now: u128) -> (record: Option<CacheRecord>) {
        None
    }

    fn to_bytes(&self) -> (out: Vec<u8>) {
        self.data.to_bytes()
    }

    fn set_id(&mut self, id: u16)
        ensures
            final(self)@ == old(self)@.with_id(id),
    {
        self.data.set_id(id);
    }

    fn get_id(&self) -> (id: u16) {
        self.data.get_id()
    }
}

impl NoSuchNameAnswer {
    /// What such an answer made from `data` holds: `data` with no answer and
    /// no authority record counted.
    pub open spec fn made_from(data: BasicDataView) -> BasicDataView {
        data.with_answers(0).with_authorities(0)
    }

    /// An answer with the header and question of `data`.
    pub fn from(data: BasicData) -> (answer: Self)
        ensures
            answer@ == NoSuchNameAnswer::made_from(data@),
    {
        let mut data = data;
        data.set_answer_count(0);
        data.set_authority_count(0);
        NoSuchNameAnswer { data }
    }

    pub fn get_name(&self) -> (name: &String)
        ensures
            name@ == self@.question.name,
    {
        self.data.get_name()
    }
}

} // verus!
