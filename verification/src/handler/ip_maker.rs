//! The stages that leave one address in an answer.

use vstd::prelude::*;
use crate::protocol::answer::{DnsAnswer, DnsAnswerView};

verus! {

/// The answer as the stages that choose an address leave it once the
/// address at `index` is chosen: an answer with more than one address keeps
/// the first record of that address alone; any other answer stays as it
/// is.
pub open spec fn chosen(answer: DnsAnswerView, index: int) -> DnsAnswerView {
    match answer {
        DnsAnswerView::Ipv4(inner) => if inner.resources.len() > 1 && 0 <= index
            < inner.resources.len() {
            DnsAnswerView::Ipv4(inner.retained(inner.resources[index].data))
        } else {
            answer
        },
        _ => answer,
    }
}

/// The addresses among which the choice is to be made: those of an answer
/// with more than one address, none for any other answer.
pub open spec fn candidates_of(answer: DnsAnswerView) -> Seq<Seq<u8>> {
    match answer {
        DnsAnswerView::Ipv4(inner) => if inner.resources.len() > 1 {
            Seq::new(inner.resources.len(), |i: int| inner.resources[i].data)
        } else {
            Seq::<Seq<u8>>::empty()
        },
        _ => Seq::<Seq<u8>>::empty(),
    }
}

/// What each address of `ips` holds.
pub open spec fn address_views(ips: Seq<[u8; 4]>) -> Seq<Seq<u8>> {
    Seq::new(ips.len(), |i: int| ips[i]@)
}

/// The stage that keeps the address that answers a probe first.
#[derive(Debug, Clone, Copy)]
pub struct IpChoiceMaker;

impl IpChoiceMaker {
    pub fn new() -> (stage: Self) {
        IpChoiceMaker
    }

    /// The addresses to probe for `answer`; none where there is nothing to
    /// choose.
    pub fn candidates(&self, answer: &DnsAnswer) -> (ips: Vec<[u8; 4]>)
        ensures
            address_views(ips@) == candidates_of(answer@),
    {
        match answer {
            DnsAnswer::Ipv4(inner) => {
                let ips = inner.get_all_ips();
                if ips.len() > 1 {
                    assert(address_views(ips@) =~= candidates_of(answer@));
                    ips
                } else {
                    let none: Vec<[u8; 4]> = Vec::new();
                    assert(address_views(none@) =~= candidates_of(answer@));
                    none
                }
            },
            _ => {
                let none: Vec<[u8; 4]> = Vec::new();
                assert(address_views(none@) =~= candidates_of(answer@));
                none
            },
        }
    }

    /// `answer` with only the address kept that stood at `index` among the
    /// candidates, the one whose probe came back first.
    pub fn handle(&self, answer: DnsAnswer, index: usize) -> (out: DnsAnswer)
        ensures
            out@ == chosen(answer@, index as int),
    {
        keep_address(answer, index)
    }
}

/// The stage that keeps the first address.
#[derive(Debug, Clone, Copy)]
pub struct IpFirstMaker;

impl IpFirstMaker {
    /// `answer` with only its first address kept.
    pub fn handle(&self, answer: DnsAnswer) -> (out: DnsAnswer)
        ensures
            out@ == chosen(answer@, 0),
    {
        keep_address(answer, 0)
    }
}

/// `answer` with only the address at `index` kept, where it has more than
/// one address.
pub fn keep_address(answer: DnsAnswer, index: usize) -> (out: DnsAnswer)
    ensures
        out@ == chosen(answer@, index as int),
{
    match answer {
        DnsAnswer::Ipv4(inner) => {
            let mut inner = inner;
            let ips = inner.get_all_ips();
            if ips.len() > 1 && index < ips.len() {
                inner.retain_ip(&ips[index]);
            }
            DnsAnswer::Ipv4(inner)
        },
        other => other,
    }
}

} // verus!
