//! Queries: the single-question form that the forwarder answers itself, and
//! the general form that it can only pass on.

use vstd::prelude::*;
use crate::bytes::push_all;
use crate::cursor::Cursor;
use crate::protocol::basic::{BasicData, BasicDataView, Builder};
use crate::protocol::header::{Header, QUERY_ONLY_RECURSIVELY};
use crate::protocol::question::{Question, QuestionView, CLASS_IN, TYPE_A};
use crate::protocol::{name_wire, wrap_name, ParseError};

verus! {

/// A query with exactly one question.
#[derive(Debug)]
pub struct DnsQuery {
    basic: BasicData,
}

impl View for DnsQuery {
    type V = BasicDataView;

    closed spec fn view(&self) -> BasicDataView {
        self.basic@
    }
}

impl Clone for DnsQuery {
    fn clone(&self) -> (copy: Self)
        ensures
            copy@ == self@,
    {
        DnsQuery { basic: self.basic.clone() }
    }
}

/// Whether a query with this header and question is one that the forwarder
/// answers itself: a recursive query with one question, for an IPv4 address
/// in the Internet class.
pub open spec fn supported_query(data: BasicDataView) -> bool {
    data.header.supported() && data.question.supported()
}

/// What the plain recursive query `id` for the address of `name` holds.
pub open spec fn query_for(id: u16, name: Seq<char>) -> BasicDataView {
    BasicDataView::fresh().with_id(id).with_name(name).with_flags(QUERY_ONLY_RECURSIVELY)
}

impl DnsQuery {
    pub fn get_id(&self) -> (id: u16)
        ensures
            id == self@.header.id,
    {
        self.basic.get_id()
    }

    pub fn set_id(&mut self, id: u16)
        ensures
            final(self)@ == old(self)@.with_id(id),
    {
        self.basic.set_id(id)
    }

    pub fn get_name(&self) -> (name: &String)
        ensures
            name@ == self@.question.name,
    {
        self.basic.get_name()
    }

    /// Whether the forwarder answers this query itself.
    pub fn is_supported(&self) -> (yes: bool)
        ensures
            yes == supported_query(self@),
    {
        self.basic.get_header().is_supported() && self.basic.get_question().is_supported()
    }

    /// Reads the query that `buf` holds.
    pub fn from(buf: Vec<u8>) -> (r: Result<DnsQuery, ParseError>)
        ensures
            match r {
                Ok(query) => BasicDataView::read_at(buf@, 0) matches Ok((data, _)) && data
                    == query@,
                Err(e) => BasicDataView::read_at(buf@, 0) == Err::<(BasicDataView, int), ParseError>(
                    e,
                ),
            },
    {
        let mut cursor = Cursor::form(buf);
        match BasicData::from(&mut cursor) {
            Ok(basic) => Ok(DnsQuery { basic }),
            Err(e) => Err(e),
        }
    }

    /// The plain recursive query `id` for the address of `domain`.
    pub fn from_domain(domain: &str, id: u16) -> (query: Self)
        ensures
            query@ == query_for(id, domain@),
    {
        let basic = Builder::new().id(id).name(domain.to_owned()).flags(
            QUERY_ONLY_RECURSIVELY,
        ).build();
        DnsQuery { basic }
    }

    /// The bytes that the query is sent as.
    pub fn to_bytes(&self) -> (out: Vec<u8>)
        ensures
            out@ == self@.wire(),
    {
        self.basic.to_bytes()
    }
}

/// A query as it came in, with as many questions as its header counts.
#[derive(Debug)]
pub struct DNSQuery {
    header: Header,
    questions: Vec<Question>,
}

/// What a [`DNSQuery`] holds.
pub struct DNSQueryView {
    pub header: Header,
    pub questions: Seq<QuestionView>,
}

/// What each question of `questions` holds.
pub open spec fn question_views(questions: Seq<Question>) -> Seq<QuestionView> {
    Seq::new(questions.len(), |i: int| questions[i]@)
}

impl View for DNSQuery {
    type V = DNSQueryView;

    closed spec fn view(&self) -> DNSQueryView {
        DNSQueryView { header: self.header, questions: question_views(self.questions@) }
    }
}

/// The bytes of `questions`, one behind the other.
pub open spec fn questions_wire(questions: Seq<QuestionView>) -> Seq<u8>
    decreases questions.len(),
{
    if questions.len() == 0 {
        Seq::<u8>::empty()
    } else {
        questions_wire(questions.drop_last()) + questions.last().wire()
    }
}

/// The `count` questions that start at `pos` of `packet`, behind `seen`.
pub open spec fn questions_at(
    seen: Seq<QuestionView>,
    packet: Seq<u8>,
    pos: int,
    count: nat,
) -> Result<Seq<QuestionView>, ParseError>
    decreases count,
{
    if count == 0 {
        Ok(seen)
    } else {
        match QuestionView::read_at(packet, pos) {
            Err(e) => Err(e),
            Ok((question, next)) => questions_at(
                seen.push(question),
                packet,
                next,
                (count - 1) as nat,
            ),
        }
    }
}

/// The `count` questions that start at `pos` of `packet`, and the offset
/// behind the last of them.
pub open spec fn questions_end(packet: Seq<u8>, pos: int, count: nat) -> Result<
    (Seq<QuestionView>, int),
    ParseError,
> {
    questions_from(Seq::<QuestionView>::empty(), packet, pos, count)
}

/// The `count` questions that start at `pos` of `packet`, behind `seen`,
/// and the offset behind the last of them.
pub open spec fn questions_from(
    seen: Seq<QuestionView>,
    packet: Seq<u8>,
    pos: int,
    count: nat,
) -> Result<(Seq<QuestionView>, int), ParseError>
    decreases count,
{
    if count == 0 {
        Ok((seen, pos))
    } else {
        match QuestionView::read_at(packet, pos) {
            Err(e) => Err(e),
            Ok((question, next)) => questions_from(
                seen.push(question),
                packet,
                next,
                (count - 1) as nat,
            ),
        }
    }
}

/// The questions that are read are the same whether or not the offset
/// behind them is asked for.
pub proof fn lemma_questions_from(seen: Seq<QuestionView>, packet: Seq<u8>, pos: int, count: nat)
    ensures
        questions_at(seen, packet, pos, count) == match questions_from(seen, packet, pos, count) {
            Ok((questions, _)) => Ok::<Seq<QuestionView>, ParseError>(questions),
            Err(e) => Err::<Seq<QuestionView>, ParseError>(e),
        },
    decreases count,
{
    if count > 0 {
        match QuestionView::read_at(packet, pos) {
            Err(e) => {},
            Ok((question, next)) => {
                lemma_questions_from(seen.push(question), packet, next, (count - 1) as nat);
            },
        }
    }
}

/// Reads the `count` questions under the cursor.
pub fn read_questions(cursor: &mut Cursor, count: u16) -> (r: Result<Vec<Question>, ParseError>)
    ensures
        final(cursor).bytes() == old(cursor).bytes(),
        match r {
            Ok(questions) => questions_end(
                old(cursor).bytes(),
                old(cursor).position() as int,
                count as nat,
            ) == Ok::<(Seq<QuestionView>, int), ParseError>(
                (question_views(questions@), final(cursor).position() as int),
            ),
            Err(e) => questions_end(old(cursor).bytes(), old(cursor).position() as int, count as nat)
                == Err::<(Seq<QuestionView>, int), ParseError>(e),
        },
{
    let ghost packet = cursor.bytes();
    let ghost start = cursor.position() as int;
    let mut questions: Vec<Question> = Vec::new();
    let mut i: u16 = 0;
    assert(question_views(questions@) =~= Seq::<QuestionView>::empty());
    while i < count
        invariant
            i <= count,
            cursor.bytes() == packet,
            packet == old(cursor).bytes(),
            start == old(cursor).position(),
            questions_from(Seq::<QuestionView>::empty(), packet, start, count as nat)
                == questions_from(
                question_views(questions@),
                packet,
                cursor.position() as int,
                (count - i) as nat,
            ),
        decreases count - i,
    {
        let ghost before = question_views(questions@);
        match Question::from(cursor) {
            Ok(question) => {
                questions.push(question);
                assert(question_views(questions@) =~= before.push(question@));
            },
            Err(e) => { return Err(e); },
        }
        i = i + 1;
    }
    Ok(questions)
}

/// Appends the bytes of `questions`.
pub fn write_questions(out: &mut Vec<u8>, questions: &Vec<Question>)
    ensures
        final(out)@ == old(out)@ + questions_wire(question_views(questions@)),
{
    let n = questions.len();
    let mut i: usize = 0;
    assert(question_views(questions@).take(0) =~= Seq::<QuestionView>::empty());
    assert(out@ =~= old(out)@ + Seq::<u8>::empty());
    while i < n
        invariant
            n == questions@.len(),
            i <= n,
            out@ == old(out)@ + questions_wire(question_views(questions@).take(i as int)),
        decreases n - i,
    {
        let question = questions[i].to_u8_vec();
        push_all(out, question.as_slice());
        proof {
            let upto = question_views(questions@).take(i + 1);
            assert(upto.drop_last() =~= question_views(questions@).take(i as int));
            assert(upto.last() == questions@[i as int]@);
            assert(out@ =~= old(out)@ + questions_wire(upto));
        }
        i = i + 1;
    }
    assert(question_views(questions@).take(n as int) =~= question_views(questions@));
}

impl DNSQueryView {
    /// The query that `packet` holds: its header and all its questions.
    pub open spec fn read(packet: Seq<u8>) -> Result<DNSQueryView, ParseError> {
        match Header::read_at(packet, 0) {
            Err(e) => Err(e),
            Ok((header, pos)) => match questions_at(
                Seq::<QuestionView>::empty(),
                packet,
                pos,
                header.question_count as nat,
            ) {
                Err(e) => Err(e),
                Ok(questions) => Ok(DNSQueryView { header, questions }),
            },
        }
    }

    /// The bytes that the query is passed on as under the transaction id
    /// `id`: the header with that id, then the questions.
    pub open spec fn wire_with_id(self, id: u16) -> Seq<u8> {
        self.header.wire_with_id(id) + questions_wire(self.questions)
    }

    /// Whether the forwarder answers the query itself: a recursive query
    /// with one question, for an IPv4 address in the Internet class.
    pub open spec fn supported(self) -> bool {
        self.header.supported() && self.questions.len() == 1 && self.questions[0].supported()
    }

    /// What the plain recursive query `id` for the address of `name` holds.
    pub open spec fn asking(id: u16, name: Seq<char>) -> DNSQueryView {
        DNSQueryView {
            header: Header {
                id,
                flags: QUERY_ONLY_RECURSIVELY,
                question_count: 1,
                answer_count: 0,
                authority_count: 0,
                additional_count: 0,
            },
            questions: seq![QuestionView { name, _type: TYPE_A, class: CLASS_IN }],
        }
    }
}

impl DNSQuery {
    /// Reads the query that `buf` holds.
    pub fn from(buf: Vec<u8>) -> (r: Result<DNSQuery, ParseError>)
        ensures
            match r {
                Ok(query) => DNSQueryView::read(buf@) == Ok::<DNSQueryView, ParseError>(query@),
                Err(e) => DNSQueryView::read(buf@) == Err::<DNSQueryView, ParseError>(e),
            },
    {
        let mut cursor = Cursor::form(buf);
        let header = match Header::from(&mut cursor) {
            Ok(header) => header,
            Err(e) => { return Err(e); },
        };
        proof {
            lemma_questions_from(
                Seq::<QuestionView>::empty(),
                cursor.bytes(),
                cursor.position() as int,
                header.question_count as nat,
            );
        }
        match read_questions(&mut cursor, header.question_count) {
            Ok(questions) => Ok(DNSQuery { header, questions }),
            Err(e) => Err(e),
        }
    }

    /// The plain recursive query `id` for the address of `domain`.
    pub fn from_domain(domain: &str, id: u16) -> (query: Self)
        ensures
            query@ == DNSQueryView::asking(id, domain@),
    {
        let header = Header {
            id,
            flags: QUERY_ONLY_RECURSIVELY,
            question_count: 1,
            answer_count: 0,
            authority_count: 0,
            additional_count: 0,
        };
        let question = Question { name: domain.to_owned(), _type: TYPE_A, class: CLASS_IN };
        let mut questions: Vec<Question> = Vec::new();
        questions.push(question);
        let query = DNSQuery { header, questions };
        assert(query@.questions =~= DNSQueryView::asking(id, domain@).questions);
        query
    }

    /// The bytes that the query is passed on as under the transaction id
    /// `id`.
    pub fn to_u8_with_id(&self, id: u16) -> (out: Vec<u8>)
        ensures
            out@ == self@.wire_with_id(id),
    {
        let mut bytes = self.header.to_u8_with_id(id);
        write_questions(&mut bytes, &self.questions);
        bytes
    }

    /// A copy of the questions.
    pub fn get_questions(&self) -> (questions: Vec<Question>)
        ensures
            question_views(questions@) == self@.questions,
    {
        let mut questions: Vec<Question> = Vec::new();
        let n = self.questions.len();
        let mut i: usize = 0;
        while i < n
            invariant
                n == self.questions@.len(),
                i <= n,
                questions@.len() == i,
                forall|k: int| 0 <= k < i ==> (#[trigger] questions@[k])@ == self.questions@[k]@,
            decreases n - i,
        {
            questions.push(self.questions[i].clone());
            i = i + 1;
        }
        assert(question_views(questions@) =~= self@.questions);
        questions
    }

    pub fn get_id(&self) -> (id: u16)
        ensures
            id == self@.header.id,
    {
        self.header.id
    }

    pub fn get_header(&self) -> (header: Header)
        ensures
            header == self@.header,
    {
        self.header
    }

    /// The number of questions that the query asks.
    pub fn question_count(&self) -> (count: usize)
        ensures
            count == self@.questions.len(),
    {
        self.questions.len()
    }

    /// The wire form of the name of the first question.
    pub fn get_domain(&self) -> (domain: Vec<u8>)
        requires
            self@.questions.len() > 0,
        ensures
            domain@ == name_wire(self@.questions[0].name),
    {
        let first = &self.questions[0];
        assert(self@.questions[0] == first@);
        wrap_name(&first.name)
    }

    /// The readable name of the first question.
    pub fn get_readable_domain(&self) -> (domain: String)
        requires
            self@.questions.len() > 0,
        ensures
            domain@ == self@.questions[0].name,
    {
        let first = &self.questions[0];
        assert(self@.questions[0] == first@);
        first.name.clone()
    }

    /// Whether the forwarder answers the query itself.
    pub fn is_supported(&self) -> (yes: bool)
        ensures
            yes == self@.supported(),
    {
        if !self.header.is_supported() || self.questions.len() != 1 {
            return false;
        }
        let first = &self.questions[0];
        assert(self@.questions[0] == first@);
        first.is_supported()
    }

    /// The single-question form of a query that has exactly one question.
    pub fn to_single(&self) -> (single: Option<DnsQuery>)
        ensures
            single is Some <==> self@.questions.len() == 1,
            single matches Some(query) ==> query@ == (BasicDataView {
                header: self@.header,
                question: self@.questions[0],
            }),
    {
        if self.questions.len() != 1 {
            return None;
        }
        let first = &self.questions[0];
        assert(self@.questions[0] == first@);
        Some(DnsQuery { basic: BasicData::assemble(self.header, first.clone()) })
    }
}

} // verus!
