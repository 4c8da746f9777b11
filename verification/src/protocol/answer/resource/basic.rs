//! What every resource record starts with.

use vstd::prelude::*;
use crate::bytes::{be_bytes, read_u16, read_u32, write_u16, write_u32};
use crate::cursor::Cursor;
use vstd::utf8::encode_utf8;
use crate::protocol::header::{lemma_u16_reads_back, lemma_u32_reads_back, u16_at, u32_at};
use crate::protocol::question::{lemma_question_round_trip, Question, QuestionView, CLASS_IN};
use crate::protocol::{plain_name, ParseError};

verus! {

/// The name, type and class of a record, its time to live in seconds and
/// the length of its data as it was read.
#[derive(Debug)]
pub struct BasicData {
    question: Question,
    ttl: u32,
    data_len: u16,
}

/// What a record's [`BasicData`] holds.
pub struct BasicDataView {
    pub question: QuestionView,
    pub ttl: u32,
    pub data_len: u16,
}

impl View for BasicData {
    type V = BasicDataView;

    closed spec fn view(&self) -> BasicDataView {
        BasicDataView { question: self.question@, ttl: self.ttl, data_len: self.data_len }
    }
}

impl Clone for BasicData {
    fn clone(&self) -> (copy: Self)
        ensures
            copy@ == self@,
    {
        BasicData { question: self.question.clone(), ttl: self.ttl, data_len: self.data_len }
    }
}

impl BasicDataView {
    /// The bytes of the name, type, class and time to live.
    pub open spec fn head_wire(self) -> Seq<u8> {
        self.question.wire() + be_bytes(self.ttl as nat, 4)
    }

    /// The bytes of the name, type, class, time to live and data length.
    pub open spec fn wire(self) -> Seq<u8> {
        self.head_wire() + be_bytes(self.data_len as nat, 2)
    }

    /// The start of the record at `pos` of `packet`, and the offset of its
    /// data.
    pub open spec fn read_at(packet: Seq<u8>, pos: int) -> Result<(BasicDataView, int), ParseError> {
        match QuestionView::read_at(packet, pos) {
            Err(e) => Err(e),
            Ok((question, stop)) => if stop + 6 > packet.len() {
                Err(ParseError::UnexpectedEnd)
            } else {
                Ok(
                    (
                        BasicDataView {
                            question,
                            ttl: u32_at(packet, stop),
                            data_len: u16_at(packet, stop + 4),
                        },
                        stop + 6,
                    ),
                )
            },
        }
    }

    /// A record of type zero in the Internet class, with an empty name, no
    /// time to live and no data.
    pub open spec fn fresh() -> BasicDataView {
        BasicDataView {
            question: QuestionView { name: Seq::<char>::empty(), _type: 0, class: CLASS_IN },
            ttl: 0,
            data_len: 0,
        }
    }

    /// This value with another name.
    pub open spec fn with_name(self, name: Seq<char>) -> BasicDataView {
        BasicDataView { question: QuestionView { name, ..self.question }, ..self }
    }

    /// This value with another type.
    pub open spec fn with_type(self, _type: u16) -> BasicDataView {
        BasicDataView { question: QuestionView { _type, ..self.question }, ..self }
    }

    /// This value with another time to live.
    pub open spec fn with_ttl(self, ttl: u32) -> BasicDataView {
        BasicDataView { ttl, ..self }
    }

    /// This value with another data length.
    pub open spec fn with_data_len(self, data_len: u16) -> BasicDataView {
        BasicDataView { data_len, ..self }
    }
}

/// The start of a record with a plain name that is written is read back.
pub proof fn lemma_record_start_round_trip(front: Seq<u8>, start: BasicDataView, back: Seq<u8>)
    requires
        plain_name(encode_utf8(start.question.name)),
    ensures
        BasicDataView::read_at(front + start.wire() + back, front.len() as int) == Ok::<
            (BasicDataView, int),
            ParseError,
        >((start, (front.len() + start.wire().len()) as int)),
{
    let question = start.question.wire();
    let ttl = be_bytes(start.ttl as nat, 4);
    let len = be_bytes(start.data_len as nat, 2);
    let packet = front + start.wire() + back;
    lemma_question_round_trip(front, start.question, ttl + len + back);
    assert(packet =~= front + question + (ttl + len + back));
    lemma_u32_reads_back(front + question, start.ttl, len + back);
    assert(packet =~= front + question + ttl + (len + back));
    lemma_u16_reads_back(front + question + ttl, start.data_len, back);
    assert(packet =~= front + question + ttl + len + back);
}

impl BasicData {
    /// Reads the start of the record under the cursor.
    pub fn from(cursor: &mut Cursor) -> (r: Result<BasicData, ParseError>)
        ensures
            final(cursor).bytes() == old(cursor).bytes(),
            match r {
                Ok(data) => BasicDataView::read_at(
                    old(cursor).bytes(),
                    old(cursor).position() as int,
                ) == Ok::<(BasicDataView, int), ParseError>((data@, final(cursor).position() as int)),
                Err(e) => BasicDataView::read_at(old(cursor).bytes(), old(cursor).position() as int)
                    == Err::<(BasicDataView, int), ParseError>(e),
            },
    {
        let question = match Question::from(cursor) {
            Ok(question) => question,
            Err(e) => { return Err(e); },
        };
        if cursor.remaining() < 6 {
            return Err(ParseError::UnexpectedEnd);
        }
        let ttl = read_u32(cursor);
        let data_len = read_u16(cursor);
        Ok(BasicData { question, ttl, data_len })
    }

    /// A record of type zero in the Internet class, with an empty name, no
    /// time to live and no data.
    pub fn new() -> (data: Self)
        ensures
            data@ == BasicDataView::fresh(),
    {
        let mut question = Question::new();
        question._type = 0;
        question.class = CLASS_IN;
        BasicData { question, ttl: 0, data_len: 0 }
    }

    pub fn get_name(&self) -> (name: &String)
        ensures
            name@ == self@.question.name,
    {
        &self.question.name
    }

    pub fn get_ttl(&self) -> (ttl: u32)
        ensures
            ttl == self@.ttl,
    {
        self.ttl
    }

    pub fn get_type(&self) -> (_type: u16)
        ensures
            _type == self@.question._type,
    {
        self.question._type
    }

    pub fn get_class(&self) -> (class: u16)
        ensures
            class == self@.question.class,
    {
        self.question.class
    }

    pub fn get_data_len(&self) -> (data_len: u16)
        ensures
            data_len == self@.data_len,
    {
        self.data_len
    }

    pub fn set_data_len(&mut self, len: u16)
        ensures
            final(self)@ == old(self)@.with_data_len(len),
    {
        self.data_len = len;
    }

    pub fn set_name(&mut self, name: String)
        ensures
            final(self)@ == old(self)@.with_name(name@),
    {
        self.question.name = name;
    }

    pub fn set_ttl(&mut self, ttl: u32)
        ensures
            final(self)@ == old(self)@.with_ttl(ttl),
    {
        self.ttl = ttl;
    }

    pub fn set_type(&mut self, _type: u16)
        ensures
            final(self)@ == old(self)@.with_type(_type),
    {
        self.question._type = _type;
    }

    /// The bytes of the name, type, class and time to live.
    pub fn head_bytes(&self) -> (out: Vec<u8>)
        ensures
            out@ == self@.head_wire(),
    {
        let mut vec = self.question.to_u8_vec();
        write_u32(&mut vec, self.ttl);
        vec
    }

    /// The bytes of the name, type, class, time to live and data length.
    pub fn to_bytes(&self) -> (out: Vec<u8>)
        ensures
            out@ == self@.wire(),
    {
        let mut vec = self.head_bytes();
        write_u16(&mut vec, self.data_len);
        vec
    }
}

/// Builds a record's [`BasicData`] field by field, starting from
/// [`BasicData::new`].
pub struct Builder {
    data: BasicData,
}

impl View for Builder {
    type V = BasicDataView;

    closed spec fn view(&self) -> BasicDataView {
        self.data@
    }
}

impl Builder {
    pub fn new() -> (builder: Self)
        ensures
            builder@ == BasicDataView::fresh(),
    {
        Builder { data: BasicData::new() }
    }

    pub fn name(self, name: String) -> (builder: Self)
        ensures
            builder@ == self@.with_name(name@),
    {
        let mut data = self.data;
        data.set_name(name);
        Builder { data }
    }

    pub fn ttl(self, ttl: u32) -> (builder: Self)
        ensures
            builder@ == self@.with_ttl(ttl),
    {
        let mut data = self.data;
        data.set_ttl(ttl);
        Builder { data }
    }

    pub fn _type(self, _type: u16) -> (builder: Self)
        ensures
            builder@ == self@.with_type(_type),
    {
        let mut data = self.data;
        data.set_type(_type);
        Builder { data }
    }

    pub fn data_len(self, data_len: u16) -> (builder: Self)
        ensures
            builder@ == self@.with_data_len(data_len),
    {
        let mut data = self.data;
        data.set_data_len(data_len);
        Builder { data }
    }

    pub fn build(self) -> (data: BasicData)
        ensures
            data@ == self@,
    {
        self.data
    }
}

} // verus!
