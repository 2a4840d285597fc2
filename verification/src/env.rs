//! What a contract call sees of the world around it: the identities that
//! stand behind the call and the ledger's clock.

use crate::bytes::{bytes_eq, clone_bytes};
use vstd::prelude::*;
use vstd::std_specs::cmp::PartialEqSpecImpl;

verus! {

/// An identity on the ledger, held as the bytes of its encoded form.
#[derive(Debug)]
pub struct Address {
    raw: Vec<u8>,
}

impl View for Address {
    type V = Seq<u8>;

    closed spec fn view(&self) -> Seq<u8> {
        self.raw@
    }
}

impl Address {
    /// The identity with the given encoding.
    pub fn new(raw: Vec<u8>) -> (address: Address)
        ensures
            address@ == raw@,
    {
        Address { raw }
    }

    /// The encoding of this identity.
    pub fn as_bytes(&self) -> (raw: &Vec<u8>)
        ensures
            raw@ == self@,
    {
        &self.raw
    }
}

impl Clone for Address {
    fn clone(&self) -> (copy: Address)
        ensures
            copy@ == self@,
    {
        Address { raw: clone_bytes(&self.raw) }
    }
}

impl PartialEq for Address {
    fn eq(&self, other: &Address) -> (same: bool) {
        bytes_eq(&self.raw, &other.raw)
    }
}

impl PartialEqSpecImpl for Address {
    open spec fn obeys_eq_spec() -> bool {
        true
    }

    open spec fn eq_spec(&self, other: &Address) -> bool {
        self@ == other@
    }
}

impl Eq for Address {

}

/// The surroundings of one contract call: the ledger's time and sequence
/// number, and the identities that authorized the call.
#[derive(Debug)]
pub struct Env {
    /// The ledger's close time, in seconds.
    pub timestamp: u64,
    /// The ledger's sequence number.
    pub sequence: u32,
    /// The identities that authorized the call.
    pub authorized: Vec<Address>,
}

impl Env {
    /// The identities that authorized the call, each by its encoding.
    pub open spec fn signers(&self) -> Seq<Seq<u8>> {
        Seq::new(self.authorized@.len(), |i: int| self.authorized@[i]@)
    }

    /// Whether `who` authorized the call.
    pub open spec fn authorizes(&self, who: Seq<u8>) -> bool {
        self.signers().contains(who)
    }

    /// A call at the given ledger time and sequence number that nobody has
    /// authorized yet.
    pub fn new(timestamp: u64, sequence: u32) -> (env: Env)
        ensures
            env.timestamp == timestamp,
            env.sequence == sequence,
            env.signers() == Seq::<Seq<u8>>::empty(),
    {
        let env = Env { timestamp, sequence, authorized: Vec::new() };
        assert(env.signers() =~= Seq::<Seq<u8>>::empty());
        env
    }

    /// Records that `who` authorized the call.
    pub fn authorize(&mut self, who: Address)
        ensures
            final(self).timestamp == old(self).timestamp,
            final(self).sequence == old(self).sequence,
            final(self).signers() == old(self).signers().push(who@),
    {
        self.authorized.push(who);
        assert(self.signers() =~= old(self).signers().push(who@));
    }

    /// Whether `who` authorized the call.
    pub fn has_authorized(&self, who: &Address) -> (yes: bool)
        ensures
            yes == self.authorizes(who@),
    {
        let mut i: usize = 0;
        while i < self.authorized.len()
            invariant
                i <= self.authorized@.len(),
                forall|j: int| 0 <= j < i ==> self.signers()[j] != who@,
            decreases self.authorized@.len() - i,
        {
            if self.authorized[i] == *who {
                assert(self.signers()[i as int] == who@);
                return true;
            }
            i += 1;
        }
        false
    }
}

} // verus!
