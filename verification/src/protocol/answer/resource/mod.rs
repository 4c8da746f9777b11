//! Resource records: what stands in the answer and authority sections.

use vstd::prelude::*;

pub mod basic;
pub mod cname;
pub mod ipv4;
pub mod soa;

pub use basic::BasicData;
pub use cname::CnameResource;
pub use ipv4::Ipv4Resource;
pub use soa::SoaResource;

verus! {

/// A resource record with data of type `T`.
pub trait Resource<T> {
    /// The name the record is about.
    spec fn name_of(&self) -> Seq<char>;

    /// The record's time to live, in seconds.
    spec fn ttl_of(&self) -> u32;

    /// The record's data.
    spec fn data_of(&self) -> T;

    fn get_name(&self) -> (name: &String)
        ensures
            name@ == self.name_of(),
    ;

    fn get_ttl(&self) -> (ttl: u32)
        ensures
            ttl == self.ttl_of(),
    ;

    fn get_data(&self) -> (data: &T)
        ensures
            *data == self.data_of(),
    ;
}

} // verus!
