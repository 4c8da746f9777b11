//! The question section of a DNS message.

use vstd::prelude::*;
use crate::bytes::{be_bytes, push_all, read_u16, write_u16};
use crate::cursor::Cursor;
use vstd::utf8::encode_utf8;
use crate::protocol::header::{lemma_u16_reads_back, u16_at};
use crate::protocol::{
    domain_at, lemma_name_round_trip, name_wire, plain_name, unzip_domain, wrap_name, ParseError,
};

verus! {

/// The record type of an IPv4 address.
pub const TYPE_A: u16 = 1;

/// The record type of a canonical name.
pub const TYPE_CNAME: u16 = 5;

/// The record type of a start of authority.
pub const TYPE_SOA: u16 = 6;

/// The Internet class.
pub const CLASS_IN: u16 = 1;

/// One question: a readable name, a record type and a class.
#[derive(Debug)]
pub struct Question {
    pub name: String,
    pub _type: u16,
    pub class: u16,
}

/// What a question holds.
pub struct QuestionView {
    pub name: Seq<char>,
    pub _type: u16,
    pub class: u16,
}

impl View for Question {
    type V = QuestionView;

    open spec fn view(&self) -> QuestionView {
        QuestionView { name: self.name@, _type: self._type, class: self.class }
    }
}

impl Clone for Question {
    fn clone(&self) -> (copy: Self)
        ensures
            copy@ == self@,
    {
        Question { name: self.name.clone(), _type: self._type, class: self.class }
    }
}

impl QuestionView {
    /// The bytes that stand for this question: the name, the type, the class.
    pub open spec fn wire(self) -> Seq<u8> {
        name_wire(self.name) + be_bytes(self._type as nat, 2) + be_bytes(self.class as nat, 2)
    }

    /// Whether the question asks for an IPv4 address in the Internet class.
    pub open spec fn supported(self) -> bool {
        self._type == TYPE_A && self.class == CLASS_IN
    }

    /// The question that starts at `pos` of `packet`, and the offset behind it.
    pub open spec fn read_at(packet: Seq<u8>, pos: int) -> Result<(QuestionView, int), ParseError> {
        match domain_at(packet, pos) {
            Err(e) => Err(e),
            Ok((name, stop)) => if stop + 4 > packet.len() {
                Err(ParseError::UnexpectedEnd)
            } else {
                Ok(
                    (
                        QuestionView {
                            name,
                            _type: u16_at(packet, stop),
                            class: u16_at(packet, stop + 2),
                        },
                        stop + 4,
                    ),
                )
            },
        }
    }
}

/// A question with a plain name that is written is read back.
pub proof fn lemma_question_round_trip(front: Seq<u8>, question: QuestionView, back: Seq<u8>)
    requires
        plain_name(encode_utf8(question.name)),
    ensures
        QuestionView::read_at(front + question.wire() + back, front.len() as int) == Ok::<
            (QuestionView, int),
            ParseError,
        >((question, (front.len() + question.wire().len()) as int)),
{
    let name = name_wire(question.name);
    let kind = be_bytes(question._type as nat, 2);
    let class = be_bytes(question.class as nat, 2);
    let packet = front + question.wire() + back;
    lemma_name_round_trip(front, question.name, kind + class + back);
    assert(packet =~= front + name + (kind + class + back));
    lemma_u16_reads_back(front + name, question._type, class + back);
    assert(packet =~= front + name + kind + (class + back));
    lemma_u16_reads_back(front + name + kind, question.class, back);
    assert(packet =~= front + name + kind + class + back);
}

impl Question {
    /// A question with an empty name and zero for type and class.
    pub fn new() -> (question: Self)
        ensures
            question@ == (QuestionView { name: Seq::<char>::empty(), _type: 0, class: 0 }),
    {
        Question { name: String::new(), _type: 0, class: 0 }
    }

    /// Reads the question under the cursor.
    pub fn from(cursor: &mut Cursor) -> (r: Result<Question, ParseError>)
        ensures
            final(cursor).bytes() == old(cursor).bytes(),
            match r {
                Ok(question) => QuestionView::read_at(
                    old(cursor).bytes(),
                    old(cursor).position() as int,
                ) == Ok::<(QuestionView, int), ParseError>(
                    (question@, final(cursor).position() as int),
                ),
                Err(e) => QuestionView::read_at(old(cursor).bytes(), old(cursor).position() as int)
                    == Err::<(QuestionView, int), ParseError>(e),
            },
    {
        let name = match unzip_domain(cursor) {
            Ok(name) => name,
            Err(e) => { return Err(e); },
        };
        if cursor.remaining() < 4 {
            return Err(ParseError::UnexpectedEnd);
        }
        let _type = read_u16(cursor);
        let class = read_u16(cursor);
        Ok(Question { name, _type, class })
    }

    /// The bytes of this question.
    pub fn to_u8_vec(&self) -> (out: Vec<u8>)
        ensures
            out@ == self@.wire(),
    {
        let mut result: Vec<u8> = Vec::new();
        let name = wrap_name(&self.name);
        push_all(&mut result, name.as_slice());
        write_u16(&mut result, self._type);
        write_u16(&mut result, self.class);
        assert(result@ =~= self@.wire());
        result
    }

    /// Every question that parses is well-formed.
    pub fn is_legal(&self) -> (legal: bool)
        ensures
            legal,
    {
        true
    }

    /// Whether the question asks for an IPv4 address in the Internet class.
    pub fn is_supported(&self) -> (yes: bool)
        ensures
            yes == self@.supported(),
    {
        self.is_legal() && self._type == TYPE_A && self.class == CLASS_IN
    }
}

} // verus!
