//! The answer that reports a server failure.

use vstd::prelude::*;
use crate::cache::cache_record::CacheRecord;
use crate::protocol::answer::Answer;
use crate::protocol::basic::{BasicData, BasicDataView, Builder};

verus! {

/// The flags of an answer that reports a server failure.
pub const FLAGS_FAILURE: u16 = 0x8182;

/// An answer without records whose flags report a server failure.
#[derive(Debug)]
pub struct FailureAnswer {
    data: BasicData,
}

impl View for FailureAnswer {
    type V = BasicDataView;

    closed spec fn view(&self) -> BasicDataView {
        self.data@
    }
}

impl Clone for FailureAnswer {
    fn clone(&self) -> (copy: Self)
        ensures
            copy@ == self@,
    {
        FailureAnswer { data: self.data.clone() }
    }
}

impl Answer for FailureAnswer {
    open spec fn id_of(&self) -> u16 {
        self@.header.id
    }

    open spec fn wire(&self) -> Seq<u8> {
        self@.wire()
    }

    open spec fn cacheable(&self) -> bool {
        false
    }

    fn to_cache(&self, now: u128) -> (record: Option<CacheRecord>) {
        None
    }

    fn to_bytes(&self) -> (out: Vec<u8>) {
        self.data.to_bytes()
    }

    fn set_id(&mut self, id: u16)
        ensures
            final(self)@ == old(self)@.with_id(id),
    {
        self.data.set_id(id);
    }

    fn get_id(&self) -> (id: u16) {
        self.data.get_id()
    }
}

impl FailureAnswer {
    /// What a failure answer made from `data` holds: `data` with no answer
    /// and no authority record counted.
    pub open spec fn made_from(data: BasicDataView) -> BasicDataView {
        data.with_authorities(0).with_answers(0)
    }

    /// What the failure answer to the query `id` for `name` holds.
    pub open spec fn made_for(id: u16, name: Seq<char>) -> BasicDataView {
        BasicDataView::fresh().with_id(id).with_name(name).with_flags(FLAGS_FAILURE)
    }

    /// A failure answer with the header and question of `data`.
    pub fn from(data: BasicData) -> (answer: Self)
        ensures
            answer@ == FailureAnswer::made_from(data@),
    {
        let mut data = data;
        data.set_authority_count(0);
        data.set_answer_count(0);
        FailureAnswer { data }
    }

    /// The failure answer to the query `id` for `name`.
    pub fn new(id: u16, name: String) -> (answer: Self)
        ensures
            answer@ == FailureAnswer::made_for(id, name@),
    {
        let data = Builder::new().id(id).name(name).flags(FLAGS_FAILURE).build();
        FailureAnswer { data }
    }

    pub fn get_name(&self) -> (name: &String)
        ensures
            name@ == self@.question.name,
    {
        self.data.get_name()
    }

    pub fn get_flags(&self) -> (flags: u16)
        ensures
            flags == self@.header.flags,
    {
        self.data.get_flags()
    }
}

} // verus!
