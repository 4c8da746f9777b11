//! What every message of the codec starts with: the header and one question.

use vstd::prelude::*;
use crate::bytes::push_all;
use crate::cursor::Cursor;
use vstd::utf8::encode_utf8;
use crate::protocol::header::{lemma_header_round_trip, Header};
use crate::protocol::question::{
    lemma_question_round_trip, Question, QuestionView, CLASS_IN, TYPE_A,
};
use crate::protocol::{plain_name, ParseError};

verus! {

/// The header and the single question of a message.
#[derive(Debug)]
pub struct BasicData {
    header: Header,
    question: Question,
}

/// What a [`BasicData`] holds.
pub struct BasicDataView {
    pub header: Header,
    pub question: QuestionView,
}

impl View for BasicData {
    type V = BasicDataView;

    closed spec fn view(&self) -> BasicDataView {
        BasicDataView { header: self.header, question: self.question@ }
    }
}

impl Clone for BasicData {
    fn clone(&self) -> (copy: Self)
        ensures
            copy@ == self@,
    {
        BasicData { header: self.header, question: self.question.clone() }
    }
}

impl BasicDataView {
    /// The bytes that stand for the header and the question.
    pub open spec fn wire(self) -> Seq<u8> {
        self.header.wire() + self.question.wire()
    }

    /// The header and the question at the start of `packet`, and the offset
    /// behind them. A message with a number of questions other than one is
    /// rejected.
    pub open spec fn read_at(packet: Seq<u8>, pos: int) -> Result<(BasicDataView, int), ParseError> {
        match Header::read_at(packet, pos) {
            Err(e) => Err(e),
            Ok((header, stop)) => if header.question_count != 1 {
                Err(ParseError::QuestionCount)
            } else {
                match QuestionView::read_at(packet, stop) {
                    Err(e) => Err(e),
                    Ok((question, end)) => Ok((BasicDataView { header, question }, end)),
                }
            },
        }
    }

    /// A header of zeros but for one question, which asks for the IPv4
    /// address of the empty name.
    pub open spec fn fresh() -> BasicDataView {
        BasicDataView {
            header: Header {
                id: 0,
                flags: 0,
                question_count: 1,
                answer_count: 0,
                authority_count: 0,
                additional_count: 0,
            },
            question: QuestionView { name: Seq::<char>::empty(), _type: TYPE_A, class: CLASS_IN },
        }
    }

    /// This value with another id.
    pub open spec fn with_id(self, id: u16) -> BasicDataView {
        BasicDataView { header: Header { id, ..self.header }, ..self }
    }

    /// This value with other flags.
    pub open spec fn with_flags(self, flags: u16) -> BasicDataView {
        BasicDataView { header: Header { flags, ..self.header }, ..self }
    }

    /// This value with another count of answers.
    pub open spec fn with_answers(self, count: u16) -> BasicDataView {
        BasicDataView { header: Header { answer_count: count, ..self.header }, ..self }
    }

    /// This value with another count of authority records.
    pub open spec fn with_authorities(self, count: u16) -> BasicDataView {
        BasicDataView { header: Header { authority_count: count, ..self.header }, ..self }
    }

    /// This value with another name in its question.
    pub open spec fn with_name(self, name: Seq<char>) -> BasicDataView {
        BasicDataView { question: QuestionView { name, ..self.question }, ..self }
    }
}

/// A header that counts one question and a question with a plain name,
/// once written, are read back, but for the count of additional records.
pub proof fn lemma_basic_round_trip(data: BasicDataView, back: Seq<u8>)
    requires
        data.header.question_count == 1,
        plain_name(encode_utf8(data.question.name)),
    ensures
        BasicDataView::read_at(data.wire() + back, 0) == Ok::<(BasicDataView, int), ParseError>(
            (
                BasicDataView {
                    header: Header { additional_count: 0, ..data.header },
                    question: data.question,
                },
                data.wire().len() as int,
            ),
        ),
{
    let packet = data.wire() + back;
    let none = Seq::<u8>::empty();
    lemma_header_round_trip(none, data.header, data.question.wire() + back);
    assert(packet =~= none + data.header.wire() + (data.question.wire() + back));
    lemma_question_round_trip(data.header.wire(), data.question, back);
    assert(packet =~= data.header.wire() + data.question.wire() + back);
}

impl BasicData {
    /// Reads the header and the question under the cursor.
    pub fn from(cursor: &mut Cursor) -> (r: Result<BasicData, ParseError>)
        ensures
            final(cursor).bytes() == old(cursor).bytes(),
            match r {
                Ok(data) => BasicDataView::read_at(
                    old(cursor).bytes(),
                    old(cursor).position() as int,
                ) == Ok::<(BasicDataView, int), ParseError>((data@, final(cursor).position() as int)),
                Err(e) => BasicDataView::read_at(old(cursor).bytes(), old(cursor).position() as int)
                    == Err::<(BasicDataView, int), ParseError>(e),
            },
    {
        let header = match Header::from(cursor) {
            Ok(header) => header,
            Err(e) => { return Err(e); },
        };
        if header.question_count != 1 {
            return Err(ParseError::QuestionCount);
        }
        let question = match Question::from(cursor) {
            Ok(question) => question,
            Err(e) => { return Err(e); },
        };
        Ok(BasicData { header, question })
    }

    /// Puts a header and a question together.
    pub fn assemble(header: Header, question: Question) -> (data: Self)
        ensures
            data@ == (BasicDataView { header, question: question@ }),
    {
        BasicData { header, question }
    }

    /// A header of zeros but for one question, which asks for the IPv4
    /// address of the empty name.
    pub fn new() -> (data: Self)
        ensures
            data@ == BasicDataView::fresh(),
    {
        let mut header = Header::new();
        header.question_count = 1;
        let mut question = Question::new();
        question._type = TYPE_A;
        question.class = CLASS_IN;
        BasicData { header, question }
    }

    pub fn set_id(&mut self, id: u16)
        ensures
            final(self)@ == old(self)@.with_id(id),
    {
        self.header.id = id;
    }

    pub fn set_flags(&mut self, flags: u16)
        ensures
            final(self)@ == old(self)@.with_flags(flags),
    {
        self.header.flags = flags;
    }

    pub fn set_answer_count(&mut self, count: u16)
        ensures
            final(self)@ == old(self)@.with_answers(count),
    {
        self.header.answer_count = count
    }

    pub fn set_authority_count(&mut self, count: u16)
        ensures
            final(self)@ == old(self)@.with_authorities(count),
    {
        self.header.authority_count = count
    }

    pub fn set_name(&mut self, name: String)
        ensures
            final(self)@ == old(self)@.with_name(name@),
    {
        self.question.name = name;
    }

    pub fn get_id(&self) -> (id: u16)
        ensures
            id == self@.header.id,
    {
        self.header.id
    }

    pub fn get_flags(&self) -> (flags: u16)
        ensures
            flags == self@.header.flags,
    {
        self.header.flags
    }

    pub fn get_name(&self) -> (name: &String)
        ensures
            name@ == self@.question.name,
    {
        &self.question.name
    }

    pub fn get_question(&self) -> (question: &Question)
        ensures
            question@ == self@.question,
    {
        &self.question
    }

    pub fn get_header(&self) -> (header: Header)
        ensures
            header == self@.header,
    {
        self.header
    }

    pub fn get_answer_count(&self) -> (count: u16)
        ensures
            count == self@.header.answer_count,
    {
        self.header.answer_count
    }

    pub fn get_authority_count(&self) -> (count: u16)
        ensures
            count == self@.header.authority_count,
    {
        self.header.authority_count
    }

    /// The bytes of the header and the question.
    pub fn to_bytes(&self) -> (out: Vec<u8>)
        ensures
            out@ == self@.wire(),
    {
        let mut header_vec = self.header.to_u8_vec();
        let question_vec = self.question.to_u8_vec();
        push_all(&mut header_vec, question_vec.as_slice());
        header_vec
    }
}

/// Builds a [`BasicData`] field by field, starting from [`BasicData::new`].
pub struct Builder {
    data: BasicData,
}

/// The builder of a message's [`BasicData`], under its longer name.
pub type BasicDataBuilder = Builder;

impl View for Builder {
    type V = BasicDataView;

    closed spec fn view(&self) -> BasicDataView {
        self.data@
    }
}

impl Builder {
    pub fn new() -> (builder: Self)
        ensures
            builder@ == BasicDataView::fresh(),
    {
        Builder { data: BasicData::new() }
    }

    pub fn id(self, id: u16) -> (builder: Self)
        ensures
            builder@ == self@.with_id(id),
    {
        let mut data = self.data;
        data.set_id(id);
        Builder { data }
    }

    pub fn flags(self, flags: u16) -> (builder: Self)
        ensures
            builder@ == self@.with_flags(flags),
    {
        let mut data = self.data;
        data.set_flags(flags);
        Builder { data }
    }

    pub fn name(self, name: String) -> (builder: Self)
        ensures
            builder@ == self@.with_name(name@),
    {
        let mut data = self.data;
        data.set_name(name);
        Builder { data }
    }

    pub fn authority(self, count: u16) -> (builder: Self)
        ensures
            builder@ == self@.with_authorities(count),
    {
        let mut data = self.data;
        data.set_authority_count(count);
        Builder { data }
    }

    pub fn answer(self, count: u16) -> (builder: Self)
        ensures
            builder@ == self@.with_answers(count),
    {
        let mut data = self.data;
        data.set_answer_count(count);
        Builder { data }
    }

    pub fn build(self) -> (data: BasicData)
        ensures
            data@ == self@,
    {
        self.data
    }
}

} // verus!
