//! A start-of-authority record.

use vstd::prelude::*;
use crate::bytes::{be_bytes, push_all, read_u32, write_number, write_u32};
use crate::cursor::Cursor;
use crate::protocol::answer::resource::basic::{BasicData, BasicDataView, Builder};
use crate::protocol::answer::resource::Resource;
use vstd::utf8::encode_utf8;
use crate::protocol::header::{lemma_u32_reads_back, u32_at};
use crate::protocol::question::TYPE_SOA;
use crate::protocol::{
    domain_at, lemma_first_dot_range, lemma_name_round_trip, name_wire, plain_labels, plain_name,
    first_dot, unzip_domain, wrap_name, ParseError,
};

verus! {

/// The primary name server of the records that this forwarder makes up.
pub open spec fn default_name_server() -> Seq<char> {
    "dns17.hichina.com"@
}

/// The mailbox of the records that this forwarder makes up.
pub open spec fn default_mailbox() -> Seq<char> {
    "hostmaster.hichina.com"@
}

/// The name that stands for the root where a primary name server is named.
pub open spec fn root_name() -> Seq<char> {
    "."@
}

/// The primary name server of a zone: a readable name, or `.` for the root.
#[derive(Debug)]
struct NameServer {
    domain: String,
}

/// The bytes that stand for a primary name server: one zero byte for the
/// root, else the name's wire form.
pub open spec fn name_server_wire(domain: Seq<char>) -> Seq<u8> {
    if domain == root_name() {
        seq![0u8]
    } else {
        name_wire(domain)
    }
}

/// The primary name server that starts at `pos` of `packet`, and the offset
/// behind it. A zero byte there names the root.
pub open spec fn name_server_at(packet: Seq<u8>, pos: int) -> Result<(Seq<char>, int), ParseError> {
    if pos >= packet.len() {
        Err(ParseError::UnexpectedEnd)
    } else if packet[pos] == 0 {
        Ok((root_name(), pos + 1))
    } else {
        domain_at(packet, pos)
    }
}

impl NameServer {
    fn from(cursor: &mut Cursor) -> (r: Result<NameServer, ParseError>)
        ensures
            final(cursor).bytes() == old(cursor).bytes(),
            match r {
                Ok(server) => name_server_at(old(cursor).bytes(), old(cursor).position() as int)
                    == Ok::<(Seq<char>, int), ParseError>(
                    (server.domain@, final(cursor).position() as int),
                ),
                Err(e) => name_server_at(old(cursor).bytes(), old(cursor).position() as int)
                    == Err::<(Seq<char>, int), ParseError>(e),
            },
    {
        if cursor.remaining() == 0 {
            return Err(ParseError::UnexpectedEnd);
        }
        if cursor.peek() == 0 {
            cursor.take();
            Ok(NameServer { domain: ".".to_owned() })
        } else {
            match unzip_domain(cursor) {
                Ok(domain) => Ok(NameServer { domain }),
                Err(e) => Err(e),
            }
        }
    }

    fn from_str(name: &str) -> (server: NameServer)
        ensures
            server.domain@ == name@,
    {
        NameServer { domain: name.to_owned() }
    }

    fn to_bytes(&self) -> (out: Vec<u8>)
        ensures
            out@ == name_server_wire(self.domain@),
    {
        let root = ".".to_owned();
        if self.domain == root {
            let mut vec: Vec<u8> = Vec::new();
            vec.push(0u8);
            assert(vec@ =~= seq![0u8]);
            vec
        } else {
            wrap_name(&self.domain)
        }
    }
}

/// The data of a start-of-authority record.
#[derive(Debug)]
pub struct Soa {
    name_server: NameServer,
    mailbox: String,
    serial_number: u32,
    interval_refresh: u32,
    interval_retry: u32,
    expire_limit: u32,
    minimum_ttl: u32,
}

/// What a [`Soa`] holds.
pub struct SoaView {
    pub name_server: Seq<char>,
    pub mailbox: Seq<char>,
    pub serial_number: u32,
    pub interval_refresh: u32,
    pub interval_retry: u32,
    pub expire_limit: u32,
    pub minimum_ttl: u32,
}

impl View for Soa {
    type V = SoaView;

    closed spec fn view(&self) -> SoaView {
        SoaView {
            name_server: self.name_server.domain@,
            mailbox: self.mailbox@,
            serial_number: self.serial_number,
            interval_refresh: self.interval_refresh,
            interval_retry: self.interval_retry,
            expire_limit: self.expire_limit,
            minimum_ttl: self.minimum_ttl,
        }
    }
}

impl SoaView {
    /// The bytes that stand for the data: both names without compression,
    /// then the five numbers.
    pub open spec fn wire(self) -> Seq<u8> {
        name_server_wire(self.name_server) + name_wire(self.mailbox) + be_bytes(
            self.serial_number as nat,
            4,
        ) + be_bytes(self.interval_refresh as nat, 4) + be_bytes(self.interval_retry as nat, 4)
            + be_bytes(self.expire_limit as nat, 4) + be_bytes(self.minimum_ttl as nat, 4)
    }

    /// The data that this forwarder makes up where it has none from upstream.
    pub open spec fn made_up() -> SoaView {
        SoaView {
            name_server: default_name_server(),
            mailbox: default_mailbox(),
            serial_number: 1,
            interval_refresh: 3600,
            interval_retry: 1200,
            expire_limit: 3600,
            minimum_ttl: 600,
        }
    }

    /// The data that starts at `pos` of `packet` and fills `data_len` bytes
    /// there, and the offset behind it.
    pub open spec fn read_at(packet: Seq<u8>, pos: int, data_len: u16) -> Result<
        (SoaView, int),
        ParseError,
    > {
        match name_server_at(packet, pos) {
            Err(e) => Err(e),
            Ok((name_server, after_server)) => match domain_at(packet, after_server) {
                Err(e) => Err(e),
                Ok((mailbox, stop)) => if stop + 20 > packet.len() {
                    Err(ParseError::UnexpectedEnd)
                } else if stop + 20 != pos + data_len {
                    Err(ParseError::BadRecordData)
                } else {
                    Ok(
                        (
                            SoaView {
                                name_server,
                                mailbox,
                                serial_number: u32_at(packet, stop),
                                interval_refresh: u32_at(packet, stop + 4),
                                interval_retry: u32_at(packet, stop + 8),
                                expire_limit: u32_at(packet, stop + 12),
                                minimum_ttl: u32_at(packet, stop + 16),
                            },
                            stop + 20,
                        ),
                    )
                },
            },
        }
    }
}

/// Whether the data of a start of authority can be written and read back:
/// the primary name server is the root or has plain labels, the mailbox is
/// a plain name, and the whole fits the two bytes of a length.
pub open spec fn plain_soa(soa: SoaView) -> bool {
    &&& soa.name_server == root_name() || plain_labels(encode_utf8(soa.name_server))
    &&& plain_name(encode_utf8(soa.mailbox))
    &&& soa.wire().len() <= 0xFFFF
}

/// A primary name server that is written is read back.
pub proof fn lemma_name_server_round_trip(front: Seq<u8>, server: Seq<char>, back: Seq<u8>)
    requires
        server == root_name() || plain_labels(encode_utf8(server)),
    ensures
        name_server_at(front + name_server_wire(server) + back, front.len() as int) == Ok::<
            (Seq<char>, int),
            ParseError,
        >((server, (front.len() + name_server_wire(server).len()) as int)),
{
    let packet = front + name_server_wire(server) + back;
    let pos = front.len() as int;
    if server == root_name() {
        assert(packet[pos] == 0);
    } else {
        let bytes = encode_utf8(server);
        lemma_first_dot_range(bytes);
        assert(name_wire(server)[0] == first_dot(bytes) as u8);
        assert(packet[pos] == name_wire(server)[0]);
        lemma_name_round_trip(front, server, back);
    }
}

/// The five numbers of a start of authority, as they are written.
pub open spec fn numbers_wire(soa: SoaView) -> Seq<u8> {
    be_bytes(soa.serial_number as nat, 4) + be_bytes(soa.interval_refresh as nat, 4) + be_bytes(
        soa.interval_retry as nat,
        4,
    ) + be_bytes(soa.expire_limit as nat, 4) + be_bytes(soa.minimum_ttl as nat, 4)
}

/// The five numbers of a start of authority that are written are read
/// back.
pub proof fn lemma_soa_numbers_round_trip(front: Seq<u8>, soa: SoaView, back: Seq<u8>)
    ensures
        numbers_wire(soa).len() == 20,
        u32_at(front + numbers_wire(soa) + back, front.len() as int) == soa.serial_number,
        u32_at(front + numbers_wire(soa) + back, (front.len() + 4) as int) == soa.interval_refresh,
        u32_at(front + numbers_wire(soa) + back, (front.len() + 8) as int) == soa.interval_retry,
        u32_at(front + numbers_wire(soa) + back, (front.len() + 12) as int) == soa.expire_limit,
        u32_at(front + numbers_wire(soa) + back, (front.len() + 16) as int) == soa.minimum_ttl,
{
    let serial = be_bytes(soa.serial_number as nat, 4);
    let refresh = be_bytes(soa.interval_refresh as nat, 4);
    let retry = be_bytes(soa.interval_retry as nat, 4);
    let expire = be_bytes(soa.expire_limit as nat, 4);
    let minimum = be_bytes(soa.minimum_ttl as nat, 4);
    let packet = front + numbers_wire(soa) + back;
    lemma_u32_reads_back(front, soa.serial_number, refresh + retry + expire + minimum + back);
    assert(packet =~= front + serial + (refresh + retry + expire + minimum + back));
    lemma_u32_reads_back(front + serial, soa.interval_refresh, retry + expire + minimum + back);
    assert(packet =~= front + serial + refresh + (retry + expire + minimum + back));
    lemma_u32_reads_back(front + serial + refresh, soa.interval_retry, expire + minimum + back);
    assert(packet =~= front + serial + refresh + retry + (expire + minimum + back));
    lemma_u32_reads_back(front + serial + refresh + retry, soa.expire_limit, minimum + back);
    assert(packet =~= front + serial + refresh + retry + expire + (minimum + back));
    lemma_u32_reads_back(front + serial + refresh + retry + expire, soa.minimum_ttl, back);
    assert(packet =~= front + serial + refresh + retry + expire + minimum + back);
}

/// The data of a start of authority that is written is read back.
#[verifier::rlimit(50)]
pub proof fn lemma_soa_round_trip(front: Seq<u8>, soa: SoaView, back: Seq<u8>)
    requires
        plain_soa(soa),
    ensures
        SoaView::read_at(front + soa.wire() + back, front.len() as int, soa.wire().len() as u16)
            == Ok::<(SoaView, int), ParseError>((soa, (front.len() + soa.wire().len()) as int)),
{
    let server = name_server_wire(soa.name_server);
    let mailbox = name_wire(soa.mailbox);
    let numbers = numbers_wire(soa);
    let packet = front + soa.wire() + back;
    assert(soa.wire() =~= server + mailbox + numbers);
    lemma_name_server_round_trip(front, soa.name_server, mailbox + numbers + back);
    assert(packet =~= front + server + (mailbox + numbers + back));
    lemma_name_round_trip(front + server, soa.mailbox, numbers + back);
    assert(packet =~= front + server + mailbox + (numbers + back));
    lemma_soa_numbers_round_trip(front + server + mailbox, soa, back);
    assert(packet =~= front + server + mailbox + numbers + back);
    assert(soa.wire().len() == server.len() + mailbox.len() + 20);
}

impl Soa {
    fn from(cursor: &mut Cursor, data_len: u16) -> (r: Result<Soa, ParseError>)
        ensures
            final(cursor).bytes() == old(cursor).bytes(),
            match r {
                Ok(soa) => SoaView::read_at(
                    old(cursor).bytes(),
                    old(cursor).position() as int,
                    data_len,
                ) == Ok::<(SoaView, int), ParseError>((soa@, final(cursor).position() as int)),
                Err(e) => SoaView::read_at(
                    old(cursor).bytes(),
                    old(cursor).position() as int,
                    data_len,
                ) == Err::<(SoaView, int), ParseError>(e),
            },
    {
        proof {
            cursor.lemma_len_fits();
        }
        let start = cursor.get_current_index();
        let name_server = match NameServer::from(cursor) {
            Ok(server) => server,
            Err(e) => { return Err(e); },
        };
        let mailbox = match unzip_domain(cursor) {
            Ok(mailbox) => mailbox,
            Err(e) => { return Err(e); },
        };
        if cursor.remaining() < 20 {
            return Err(ParseError::UnexpectedEnd);
        }
        let stop = cursor.get_current_index();
        if stop + 20 < start || stop + 20 - start != data_len as usize {
            return Err(ParseError::BadRecordData);
        }
        let serial_number = read_u32(cursor);
        let interval_refresh = read_u32(cursor);
        let interval_retry = read_u32(cursor);
        let expire_limit = read_u32(cursor);
        let minimum_ttl = read_u32(cursor);
        Ok(
            Soa {
                name_server,
                mailbox,
                serial_number,
                interval_refresh,
                interval_retry,
                expire_limit,
                minimum_ttl,
            },
        )
    }

    /// The data that this forwarder makes up where it has none from
    /// upstream.
    pub fn default() -> (soa: Soa)
        ensures
            soa@ == SoaView::made_up(),
    {
        Soa {
            name_server: NameServer::from_str("dns17.hichina.com"),
            mailbox: "hostmaster.hichina.com".to_owned(),
            serial_number: 1,
            interval_refresh: 3600,
            interval_retry: 1200,
            expire_limit: 3600,
            minimum_ttl: 600,
        }
    }

    /// The bytes of the data.
    pub fn to_bytes(&self) -> (out: Vec<u8>)
        ensures
            out@ == self@.wire(),
    {
        let mut vec = self.name_server.to_bytes();
        let mailbox = wrap_name(&self.mailbox);
        push_all(&mut vec, mailbox.as_slice());
        write_u32(&mut vec, self.serial_number);
        write_u32(&mut vec, self.interval_refresh);
        write_u32(&mut vec, self.interval_retry);
        write_u32(&mut vec, self.expire_limit);
        write_u32(&mut vec, self.minimum_ttl);
        assert(vec@ =~= self@.wire());
        vec
    }

    pub fn get_name_server(&self) -> (name: &String)
        ensures
            name@ == self@.name_server,
    {
        &self.name_server.domain
    }

    pub fn get_mailbox(&self) -> (name: &String)
        ensures
            name@ == self@.mailbox,
    {
        &self.mailbox
    }

    pub fn get_minimum_ttl(&self) -> (ttl: u32)
        ensures
            ttl == self@.minimum_ttl,
    {
        self.minimum_ttl
    }
}

/// A record whose data names the start of a zone of authority.
#[derive(Debug)]
pub struct SoaResource {
    basic: BasicData,
    data: Soa,
}

/// What a [`SoaResource`] holds.
pub struct SoaResourceView {
    pub basic: BasicDataView,
    pub data: SoaView,
}

impl View for SoaResource {
    type V = SoaResourceView;

    closed spec fn view(&self) -> SoaResourceView {
        SoaResourceView { basic: self.basic@, data: self.data@ }
    }
}

impl SoaResourceView {
    /// The bytes of the record: its start, the length of the data as it is
    /// written here, the data.
    pub open spec fn wire(self) -> Seq<u8> {
        self.basic.head_wire() + be_bytes(self.data.wire().len(), 2) + self.data.wire()
    }

    /// The record that this forwarder makes up for `name`.
    pub open spec fn made_up(name: Seq<char>, ttl: u32) -> SoaResourceView {
        SoaResourceView {
            basic: BasicDataView::fresh().with_type(TYPE_SOA).with_ttl(ttl).with_name(
                name,
            ).with_data_len(63),
            data: SoaView::made_up(),
        }
    }
}

impl Resource<Soa> for SoaResource {
    open spec fn name_of(&self) -> Seq<char> {
        self@.basic.question.name
    }

    open spec fn ttl_of(&self) -> u32 {
        self@.basic.ttl
    }

    closed spec fn data_of(&self) -> Soa {
        self.data
    }

    fn get_name(&self) -> (name: &String) {
        self.basic.get_name()
    }

    fn get_ttl(&self) -> (ttl: u32) {
        self.basic.get_ttl()
    }

    fn get_data(&self) -> (data: &Soa)
        ensures
            data@ == self@.data,
    {
        &self.data
    }
}

impl SoaResource {
    /// Reads the data of a start-of-authority record whose start is `basic`.
    pub fn create(basic: BasicData, cursor: &mut Cursor) -> (r: Result<SoaResource, ParseError>)
        ensures
            final(cursor).bytes() == old(cursor).bytes(),
            match r {
                Ok(resource) => SoaView::read_at(
                    old(cursor).bytes(),
                    old(cursor).position() as int,
                    basic@.data_len,
                ) == Ok::<(SoaView, int), ParseError>(
                    (resource@.data, final(cursor).position() as int),
                ) && resource@.basic == basic@,
                Err(e) => SoaView::read_at(
                    old(cursor).bytes(),
                    old(cursor).position() as int,
                    basic@.data_len,
                ) == Err::<(SoaView, int), ParseError>(e),
            },
    {
        match Soa::from(cursor, basic.get_data_len()) {
            Ok(data) => Ok(SoaResource { basic, data }),
            Err(e) => Err(e),
        }
    }

    /// The record that this forwarder makes up for `name`, to live `ttl`
    /// seconds.
    pub fn new_with_default_soa(name: String, ttl: u32) -> (resource: Self)
        ensures
            resource@ == SoaResourceView::made_up(name@, ttl),
    {
        let soa = Soa::default();
        let basic = Builder::new()._type(TYPE_SOA).ttl(ttl).name(name).data_len(63).build();
        SoaResource { basic, data: soa }
    }

    pub fn set_name(&mut self, name: String)
        ensures
            final(self)@ == (SoaResourceView {
                basic: old(self)@.basic.with_name(name@),
                ..old(self)@
            }),
    {
        self.basic.set_name(name)
    }

    /// The bytes of the record.
    pub fn to_bytes(&self) -> (out: Vec<u8>)
        ensures
            out@ == self@.wire(),
    {
        let mut vec = self.basic.head_bytes();
        let data_vec = self.data.to_bytes();
        write_number(&mut vec, data_vec.len() as u128, 2);
        push_all(&mut vec, data_vec.as_slice());
        vec
    }
}

} // verus!
