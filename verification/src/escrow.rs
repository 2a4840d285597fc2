//! The hash-time-locked escrow: a maker deposits, a resolver locks, and the
//! deposit is released by the secret up to the time lock or refunded to the
//! maker after it.

use crate::bytes::{bytes_eq, clone_bytes};
use crate::env::{Address, Env};
use crate::escrow_id::escrow_id_preimage;
use crate::escrow_model::{
    added,
    completion_check,
    count_status,
    fresh_record,
    holds,
    lemma_addition_keeps_wf,
    lemma_exchange_keeps_wf,
    lookup,
    made_by,
    refund_check,
    sorted,
    EscrowState,
};
use crate::escrow_types::{
    Error,
    Escrow,
    EscrowView,
    Rejection,
    TimeLocks,
    STATUS_COMPLETED,
    STATUS_LOCKED,
    STATUS_PENDING,
    STATUS_REFUNDED,
};
use crate::hashing::{compute_hash_lock, host_sha256, DIGEST_LEN, MAX_HASH_INPUT};
use crate::registry::Registry;
use vstd::prelude::*;

verus! {

/// What a creation returns, as mathematical values.
pub open spec fn id_outcome(result: Result<Vec<u8>, Rejection>) -> Result<Seq<u8>, Rejection> {
    match result {
        Ok(id) => Ok(id@),
        Err(rejection) => Err(rejection),
    }
}

/// Whether `record` may be completed at the instant `now` by the secret with
/// the given digest: the status is looked at first, then the secret, then the
/// time lock.
pub fn check_completion(record: &Escrow, digest: &Vec<u8>, now: u64) -> (verdict: Result<
    (),
    Error,
>)
    ensures
        verdict == completion_check(record@, digest@, now),
{
    if record.status != STATUS_LOCKED {
        Err(Error::InvalidStatus)
    } else if !bytes_eq(digest, &record.hash_lock) {
        Err(Error::InvalidSecret)
    } else if now > record.time_lock {
        Err(Error::TimelockExpired)
    } else {
        Ok(())
    }
}

/// Whether `record` may be refunded at the instant `now`.
pub fn check_refund(record: &Escrow, now: u64) -> (verdict: Result<(), Error>)
    ensures
        verdict == refund_check(record@, now),
{
    if record.status != STATUS_PENDING && record.status != STATUS_LOCKED {
        Err(Error::InvalidStatus)
    } else if now <= record.time_lock {
        Err(Error::TimelockNotExpired)
    } else {
        Ok(())
    }
}

/// Whether `record` is well formed: its status is one of the four, its amount
/// is positive, and it holds a secret exactly if it is completed.
pub fn record_is_valid(record: &Escrow) -> (valid: bool)
    ensures
        valid == record@.wf(),
{
    record.status <= STATUS_REFUNDED && record.amount > 0 && (record.secret.is_some() == (
    record.status == STATUS_COMPLETED))
}

/// The escrow contract: its counter and its registry of escrows.
#[derive(Debug)]
pub struct StellarEthEscrow {
    counter: u64,
    escrows: Registry,
}

impl View for StellarEthEscrow {
    type V = EscrowState;

    closed spec fn view(&self) -> EscrowState {
        EscrowState { counter: self.counter, records: self.escrows@ }
    }
}

impl StellarEthEscrow {
    /// The invariant of the contract: see [`EscrowState::wf`].
    pub open spec fn wf(&self) -> bool {
        self@.wf()
    }

    /// A contract that holds no escrow.
    pub fn new() -> (contract: StellarEthEscrow)
        ensures
            contract@ == EscrowState::initial(),
            contract.wf(),
    {
        StellarEthEscrow { counter: 0, escrows: Registry::new() }
    }

    /// The contract that holds the given counter and records, if they make a
    /// well-formed contract: the records in strictly ascending order of their
    /// ids, each well formed, and the counter their number.
    pub fn restore(counter: u64, records: Vec<Escrow>) -> (contract: Option<StellarEthEscrow>)
        ensures
            contract.is_some() == (EscrowState {
                counter,
                records: records@.map_values(|e: Escrow| e@),
            }).wf(),
            contract matches Some(c) ==> c.wf() && c@ == (EscrowState {
                counter,
                records: records@.map_values(|e: Escrow| e@),
            }),
    {
        let ghost views = records@.map_values(|e: Escrow| e@);
        if counter > u32::MAX as u64 || records.len() as u64 != counter {
            return None;
        }
        let mut i: usize = 0;
        while i < records.len()
            invariant
                i <= records@.len(),
                views == records@.map_values(|e: Escrow| e@),
                forall|j: int| 0 <= j < i ==> (#[trigger] views[j]).wf(),
            decreases records@.len() - i,
        {
            if !record_is_valid(&records[i]) {
                assert(!views[i as int].wf());
                return None;
            }
            i += 1;
        }
        match Registry::from_records(records) {
            None => None,
            Some(escrows) => Some(StellarEthEscrow { counter, escrows }),
        }
    }

    /// Copies of all escrows, in ascending order of their ids.
    pub fn records(&self) -> (records: Vec<Escrow>)
        ensures
            records@.map_values(|e: Escrow| e@) == self@.records,
    {
        self.escrows.records()
    }

    /// Sets the counter to zero and the registry to empty, whatever was held
    /// before.
    pub fn initialize(&mut self)
        ensures
            final(self)@ == EscrowState::initial(),
            final(self).wf(),
    {
        self.counter = 0;
        self.escrows = Registry::new();
    }

    /// Takes the counter up by one and derives the id of the escrow that it
    /// now numbers: the digest of the ledger time, the ledger sequence number,
    /// the counter after its increment, and the amount. The registry is left
    /// alone.
    fn generate_escrow_id(
        &mut self,
        env: &Env,
        _maker: &Address,
        amount: i128,
        _asset: &Address,
    ) -> (id: Vec<u8>)
        requires
            old(self)@.counter < u64::MAX,
        ensures
            final(self)@.counter == old(self)@.counter + 1,
            final(self)@.records == old(self)@.records,
            id@ == old(self)@.next_id(*env, amount),
            id@.len() == DIGEST_LEN,
    {
        self.counter = self.counter + 1;
        let data = escrow_id_preimage(env.timestamp, env.sequence, self.counter, amount);
        host_sha256(&data)
    }

    /// Keeps a pending escrow under `id` and returns the id, unless the id is
    /// taken: then nothing changes. The counter is left alone.
    fn store_pending(
        &mut self,
        env: &Env,
        id: Vec<u8>,
        maker: Address,
        amount: i128,
        asset: Address,
        hash_lock: Vec<u8>,
        time_locks: TimeLocks,
    ) -> (stored: Option<Vec<u8>>)
        requires
            sorted(old(self)@.records),
        ensures
            final(self)@.counter == old(self)@.counter,
            stored.is_none() == holds(old(self)@.records, id@),
            stored.is_none() ==> final(self)@.records == old(self)@.records,
            stored matches Some(key) ==> key@ == id@ && final(self)@.records == added(
                old(self)@.records,
                fresh_record(
                    env.timestamp,
                    id@,
                    maker@,
                    amount,
                    asset@,
                    hash_lock@,
                    time_locks.withdrawal,
                ),
            ),
    {
        if self.escrows.contains(&id) {
            return None;
        }
        let key = clone_bytes(&id);
        let record = Escrow {
            id,
            maker,
            amount,
            asset,
            hash_lock,
            time_lock: time_locks.withdrawal,
            status: STATUS_PENDING,
            secret: None,
            created_at: env.timestamp,
        };
        self.escrows.set(record);
        Some(key)
    }

    /// Creates an escrow under the given id.
    ///
    /// Fails with `InvalidAmount` unless the amount is positive, is turned
    /// away unless the maker authorized the call, and fails with
    /// `EscrowExists` if the id is taken. Otherwise the counter goes up by
    /// one and a pending escrow is stored. A call that does not succeed
    /// changes nothing.
    pub fn create_escrow_with_id(
        &mut self,
        env: &Env,
        id: Vec<u8>,
        maker: Address,
        amount: i128,
        asset: Address,
        hash_lock: Vec<u8>,
        time_locks: TimeLocks,
    ) -> (result: Result<Vec<u8>, Rejection>)
        requires
            old(self).wf(),
            amount > 0 && env.authorizes(maker@) && !holds(old(self)@.records, id@)
                ==> old(self)@.counter < u32::MAX,
        ensures
            final(self).wf(),
            (final(self)@, id_outcome(result)) == old(self)@.create_with_id(
                *env,
                id@,
                maker@,
                amount,
                asset@,
                hash_lock@,
                time_locks.withdrawal,
            ),
    {
        if amount <= 0 {
            return Err(Rejection::Failed(Error::InvalidAmount));
        }
        if !env.has_authorized(&maker) {
            return Err(Rejection::Unauthorized);
        }
        proof {
            if !holds(self@.records, id@) {
                lemma_addition_keeps_wf(
                    self@,
                    fresh_record(
                        env.timestamp,
                        id@,
                        maker@,
                        amount,
                        asset@,
                        hash_lock@,
                        time_locks.withdrawal,
                    ),
                );
            }
        }
        match self.store_pending(env, id, maker, amount, asset, hash_lock, time_locks) {
            None => Err(Rejection::Failed(Error::EscrowExists)),
            Some(key) => {
                self.counter = self.counter + 1;
                Ok(key)
            },
        }
    }

    /// Creates an escrow for `maker` and returns its id.
    ///
    /// Fails with `InvalidAmount` unless the amount is positive and is turned
    /// away unless the maker authorized the call. Then the counter goes up by
    /// one and the id is derived from the ledger time and sequence number,
    /// the counter and the amount. Where the id is taken, the call fails with
    /// `EscrowExists` and the counter is taken back; else a pending escrow is
    /// stored under the id. A call that does not succeed changes nothing.
    pub fn create_escrow(
        &mut self,
        env: &Env,
        maker: Address,
        amount: i128,
        asset: Address,
        hash_lock: Vec<u8>,
        time_locks: TimeLocks,
    ) -> (result: Result<Vec<u8>, Rejection>)
        requires
            old(self).wf(),
            amount > 0 && env.authorizes(maker@) ==> old(self)@.counter < u32::MAX,
        ensures
            final(self).wf(),
            (final(self)@, id_outcome(result)) == old(self)@.create(
                *env,
                maker@,
                amount,
                asset@,
                hash_lock@,
                time_locks.withdrawal,
            ),
            result matches Ok(id) ==> id@.len() == DIGEST_LEN,
    {
        if amount <= 0 {
            return Err(Rejection::Failed(Error::InvalidAmount));
        }
        if !env.has_authorized(&maker) {
            return Err(Rejection::Unauthorized);
        }
        let id = self.generate_escrow_id(env, &maker, amount, &asset);
        proof {
            if !holds(old(self)@.records, id@) {
                lemma_addition_keeps_wf(
                    old(self)@,
                    fresh_record(
                        env.timestamp,
                        id@,
                        maker@,
                        amount,
                        asset@,
                        hash_lock@,
                        time_locks.withdrawal,
                    ),
                );
            }
        }
        match self.store_pending(env, id, maker, amount, asset, hash_lock, time_locks) {
            None => {
                self.counter = self.counter - 1;
                Err(Rejection::Failed(Error::EscrowExists))
            },
            Some(key) => Ok(key),
        }
    }

    /// Creates an escrow for `maker` and returns its id, unless the call gets
    /// as far as counting a new escrow and the contract holds as many as the
    /// statistics can count: then the result is `None` and nothing changes.
    pub fn try_create_escrow(
        &mut self,
        env: &Env,
        maker: Address,
        amount: i128,
        asset: Address,
        hash_lock: Vec<u8>,
        time_locks: TimeLocks,
    ) -> (result: Option<Result<Vec<u8>, Rejection>>)
        requires
            old(self).wf(),
        ensures
            final(self).wf(),
            result.is_none() == (amount > 0 && env.authorizes(maker@) && old(self)@.counter
                >= u32::MAX),
            result.is_none() ==> final(self)@ == old(self)@,
            result matches Some(outcome) ==> (final(self)@, id_outcome(outcome))
                == old(self)@.create(
                *env,
                maker@,
                amount,
                asset@,
                hash_lock@,
                time_locks.withdrawal,
            ),
    {
        if amount > 0 && self.counter >= u32::MAX as u64 && env.has_authorized(&maker) {
            None
        } else {
            Some(self.create_escrow(env, maker, amount, asset, hash_lock, time_locks))
        }
    }

    /// Locks a pending escrow on behalf of `resolver`.
    ///
    /// Is turned away unless the resolver authorized the call, fails with
    /// `EscrowNotFound` if nothing is kept under the id, and with
    /// `InvalidStatus` unless the escrow is pending. The time lock plays no
    /// part.
    pub fn lock_escrow(&mut self, env: &Env, escrow_id: &Vec<u8>, resolver: &Address) -> (result:
        Result<(), Rejection>)
        requires
            old(self).wf(),
        ensures
            final(self).wf(),
            (final(self)@, result) == old(self)@.lock(*env, escrow_id@, resolver@),
    {
        if !env.has_authorized(resolver) {
            return Err(Rejection::Unauthorized);
        }
        let mut record = match self.escrows.get(escrow_id) {
            Some(record) => record,
            None => {
                return Err(Rejection::Failed(Error::EscrowNotFound));
            },
        };
        if record.status != STATUS_PENDING {
            return Err(Rejection::Failed(Error::InvalidStatus));
        }
        record.status = STATUS_LOCKED;
        proof {
            lemma_exchange_keeps_wf(self@, record@);
        }
        self.escrows.set(record);
        Ok(())
    }

    /// Completes a locked escrow with a secret whose digest is given.
    ///
    /// Is turned away unless the resolver authorized the call, fails with
    /// `EscrowNotFound` if nothing is kept under the id, and else as
    /// [`check_completion`] says at the ledger's time. On success the escrow
    /// is completed and holds the secret.
    pub fn complete_escrow_with_digest(
        &mut self,
        env: &Env,
        escrow_id: &Vec<u8>,
        secret: Vec<u8>,
        digest: &Vec<u8>,
        resolver: &Address,
    ) -> (result: Result<(), Rejection>)
        requires
            old(self).wf(),
        ensures
            final(self).wf(),
            (final(self)@, result) == old(self)@.complete_with_digest(
                *env,
                escrow_id@,
                secret@,
                digest@,
                resolver@,
            ),
    {
        if !env.has_authorized(resolver) {
            return Err(Rejection::Unauthorized);
        }
        let mut record = match self.escrows.get(escrow_id) {
            Some(record) => record,
            None => {
                return Err(Rejection::Failed(Error::EscrowNotFound));
            },
        };
        match check_completion(&record, digest, env.timestamp) {
            Err(e) => {
                return Err(Rejection::Failed(e));
            },
            Ok(_) => {},
        }
        record.status = STATUS_COMPLETED;
        record.secret = Some(secret);
        proof {
            lemma_exchange_keeps_wf(self@, record@);
        }
        self.escrows.set(record);
        Ok(())
    }

    /// Whether a completion gets as far as hashing the secret: whether the
    /// resolver authorized the call and a locked escrow is kept under the id.
    pub fn hashes_secret(&self, env: &Env, escrow_id: &Vec<u8>, resolver: &Address) -> (hashes: bool)
        requires
            self.wf(),
        ensures
            hashes == self@.hashes_secret(*env, escrow_id@, resolver@),
    {
        if !env.has_authorized(resolver) {
            return false;
        }
        match self.escrows.get(escrow_id) {
            Some(record) => record.status == STATUS_LOCKED,
            None => false,
        }
    }

    /// Completes a locked escrow by revealing its secret.
    ///
    /// Succeeds exactly if the resolver authorized the call, the escrow is
    /// locked, the secret hashes to the hash lock, and the ledger's time is
    /// not past the time lock. The secret is hashed only once the call is
    /// authorized and the escrow found to be locked; only then must it be
    /// short enough to be hashed.
    pub fn complete_escrow(
        &mut self,
        env: &Env,
        escrow_id: &Vec<u8>,
        secret: Vec<u8>,
        resolver: &Address,
    ) -> (result: Result<(), Rejection>)
        requires
            old(self).wf(),
            old(self)@.hashes_secret(*env, escrow_id@, resolver@) ==> secret@.len()
                <= MAX_HASH_INPUT,
        ensures
            final(self).wf(),
            (final(self)@, result) == old(self)@.complete(*env, escrow_id@, secret@, resolver@),
    {
        if !env.has_authorized(resolver) {
            return Err(Rejection::Unauthorized);
        }
        match self.escrows.get(escrow_id) {
            None => {
                return Err(Rejection::Failed(Error::EscrowNotFound));
            },
            Some(record) => {
                if record.status != STATUS_LOCKED {
                    return Err(Rejection::Failed(Error::InvalidStatus));
                }
            },
        }
        let digest = compute_hash_lock(&secret);
        self.complete_escrow_with_digest(env, escrow_id, secret, &digest, resolver)
    }

    /// Completes a locked escrow by revealing its secret, unless the secret
    /// would have to be hashed and is too long for that: then the result is
    /// `None` and nothing changes.
    pub fn try_complete_escrow(
        &mut self,
        env: &Env,
        escrow_id: &Vec<u8>,
        secret: Vec<u8>,
        resolver: &Address,
    ) -> (result: Option<Result<(), Rejection>>)
        requires
            old(self).wf(),
        ensures
            final(self).wf(),
            result.is_none() == (old(self)@.hashes_secret(*env, escrow_id@, resolver@)
                && secret@.len() > MAX_HASH_INPUT),
            result.is_none() ==> final(self)@ == old(self)@,
            result matches Some(outcome) ==> (final(self)@, outcome) == old(self)@.complete(
                *env,
                escrow_id@,
                secret@,
                resolver@,
            ),
    {
        if secret.len() > MAX_HASH_INPUT && self.hashes_secret(env, escrow_id, resolver) {
            None
        } else {
            Some(self.complete_escrow(env, escrow_id, secret, resolver))
        }
    }

    /// Refunds a pending or locked escrow whose time lock has run out.
    ///
    /// Fails with `EscrowNotFound` if nothing is kept under the id, is turned
    /// away unless the maker named in the record authorized the call, and
    /// else as [`check_refund`] says at the ledger's time.
    pub fn refund_escrow(&mut self, env: &Env, escrow_id: &Vec<u8>) -> (result: Result<
        (),
        Rejection,
    >)
        requires
            old(self).wf(),
        ensures
            final(self).wf(),
            (final(self)@, result) == old(self)@.refund(*env, escrow_id@),
    {
        let mut record = match self.escrows.get(escrow_id) {
            Some(record) => record,
            None => {
                return Err(Rejection::Failed(Error::EscrowNotFound));
            },
        };
        if !env.has_authorized(&record.maker) {
            return Err(Rejection::Unauthorized);
        }
        match check_refund(&record, env.timestamp) {
            Err(e) => {
                return Err(Rejection::Failed(e));
            },
            Ok(_) => {},
        }
        record.status = STATUS_REFUNDED;
        proof {
            lemma_exchange_keeps_wf(self@, record@);
        }
        self.escrows.set(record);
        Ok(())
    }

    /// The escrow kept under the id, if there is one.
    pub fn get_escrow(&self, escrow_id: &Vec<u8>) -> (found: Option<Escrow>)
        requires
            self.wf(),
        ensures
            found.is_some() == holds(self@.records, escrow_id@),
            found matches Some(record) ==> record@ == lookup(self@.records, escrow_id@),
    {
        self.escrows.get(escrow_id)
    }

    /// The escrows of one maker, in ascending order of their ids. Looks at
    /// every record.
    pub fn get_escrows_by_maker(&self, maker: &Address) -> (found: Vec<Escrow>)
        ensures
            found@.map_values(|e: Escrow| e@) == made_by(self@.records, maker@),
    {
        let mut found: Vec<Escrow> = Vec::new();
        let n = self.escrows.len();
        let ghost records = self@.records;
        let ghost same_maker = |r: EscrowView| r.maker == maker@;
        let mut i: usize = 0;
        assert(found@.map_values(|e: Escrow| e@) =~= records.take(0).filter(same_maker));
        while i < n
            invariant
                n == records.len(),
                records == self@.records,
                same_maker == (|r: EscrowView| r.maker == maker@),
                i <= n,
                found@.map_values(|e: Escrow| e@) == records.take(i as int).filter(same_maker),
            decreases n - i,
        {
            let record = self.escrows.record_at(i);
            proof {
                let upto = records.take(i + 1);
                assert(upto.drop_last() =~= records.take(i as int));
                assert(upto.last() == records[i as int]);
                reveal(Seq::filter);
            }
            if record.maker == *maker {
                let ghost before = found@.map_values(|e: Escrow| e@);
                found.push(record.clone());
                assert(found@.map_values(|e: Escrow| e@) =~= before.push(record@));
            }
            i += 1;
        }
        assert(records.take(n as int) =~= records);
        found
    }

    /// The counter, and how many escrows are pending, locked, completed and
    /// refunded. The four add up to the counter.
    pub fn get_stats(&self) -> (stats: (u64, u32, u32, u32, u32))
        requires
            self.wf(),
        ensures
            stats.0 == self@.counter,
            stats.1 == count_status(self@.records, STATUS_PENDING),
            stats.2 == count_status(self@.records, STATUS_LOCKED),
            stats.3 == count_status(self@.records, STATUS_COMPLETED),
            stats.4 == count_status(self@.records, STATUS_REFUNDED),
            stats.1 + stats.2 + stats.3 + stats.4 == stats.0,
    {
        let n = self.escrows.len();
        let ghost records = self@.records;
        let mut pending: u32 = 0;
        let mut locked: u32 = 0;
        let mut completed: u32 = 0;
        let mut refunded: u32 = 0;
        let mut i: usize = 0;
        assert(records.take(0) =~= Seq::<EscrowView>::empty());
        while i < n
            invariant
                n == records.len(),
                n <= u32::MAX,
                records == self@.records,
                self.wf(),
                i <= n,
                pending == count_status(records.take(i as int), STATUS_PENDING),
                locked == count_status(records.take(i as int), STATUS_LOCKED),
                completed == count_status(records.take(i as int), STATUS_COMPLETED),
                refunded == count_status(records.take(i as int), STATUS_REFUNDED),
                pending + locked + completed + refunded == i,
            decreases n - i,
        {
            let record = self.escrows.record_at(i);
            proof {
                let upto = records.take(i + 1);
                assert(upto.drop_last() =~= records.take(i as int));
                assert(upto.last() == records[i as int]);
                assert(records[i as int].wf());
            }
            if record.status == STATUS_PENDING {
                pending += 1;
            } else if record.status == STATUS_LOCKED {
                locked += 1;
            } else if record.status == STATUS_COMPLETED {
                completed += 1;
            } else {
                refunded += 1;
            }
            i += 1;
        }
        assert(records.take(n as int) =~= records);
        (self.counter, pending, locked, completed, refunded)
    }
}

} // verus!
