//! The escrow contract as a mathematical state machine: what it holds, and
//! what each operation returns and leaves behind.

use crate::bytes::{
    lemma_lex_connected,
    lemma_lex_irreflexive,
    lemma_lex_transitive,
    lex_less,
};
use crate::env::Env;
use crate::escrow_id::id_preimage;
use crate::escrow_types::{
    Error,
    EscrowView,
    Rejection,
    STATUS_LOCKED,
    STATUS_PENDING,
    STATUS_REFUNDED,
};
use crate::hashing::sha256;
use vstd::prelude::*;

verus! {

/// Some record is kept under `id`.
pub open spec fn holds(records: Seq<EscrowView>, id: Seq<u8>) -> bool {
    exists|i: int| 0 <= i < records.len() && #[trigger] records[i].id == id
}

/// A place at which a record is kept under `id`.
pub open spec fn position(records: Seq<EscrowView>, id: Seq<u8>) -> int {
    choose|i: int| 0 <= i < records.len() && #[trigger] records[i].id == id
}

/// The record kept under `id`.
pub open spec fn lookup(records: Seq<EscrowView>, id: Seq<u8>) -> EscrowView {
    records[position(records, id)]
}

/// The records stand in strictly ascending order of their ids, so no id
/// occurs twice.
pub open spec fn sorted(records: Seq<EscrowView>) -> bool {
    forall|i: int, j: int|
        0 <= i < j < records.len() ==> lex_less(#[trigger] records[i].id, #[trigger] records[j].id)
}

/// How many records at the front have an id before `id`: the place at which
/// a record under `id` belongs.
pub open spec fn rank(records: Seq<EscrowView>, id: Seq<u8>) -> int
    decreases records.len(),
{
    if records.len() == 0 || !lex_less(records[0].id, id) {
        0
    } else {
        1 + rank(records.drop_first(), id)
    }
}

/// The records with the one under `id` exchanged for `record`.
pub open spec fn replaced(records: Seq<EscrowView>, id: Seq<u8>, record: EscrowView) -> Seq<
    EscrowView,
> {
    records.update(position(records, id), record)
}

/// The records with `record` put in at its place.
pub open spec fn added(records: Seq<EscrowView>, record: EscrowView) -> Seq<EscrowView> {
    records.insert(rank(records, record.id), record)
}

/// How many of the records have the given status.
pub open spec fn count_status(records: Seq<EscrowView>, status: u32) -> nat
    decreases records.len(),
{
    if records.len() == 0 {
        0
    } else {
        count_status(records.drop_last(), status) + if records.last().status == status {
            1nat
        } else {
            0nat
        }
    }
}

/// The records of one maker, in the order in which they are kept.
pub open spec fn made_by(records: Seq<EscrowView>, maker: Seq<u8>) -> Seq<EscrowView> {
    records.filter(|r: EscrowView| r.maker == maker)
}

/// `rank` is a place in the sequence or its end.
pub proof fn lemma_rank_bounds(records: Seq<EscrowView>, id: Seq<u8>)
    ensures
        0 <= rank(records, id) <= records.len(),
    decreases records.len(),
{
    if records.len() > 0 && lex_less(records[0].id, id) {
        lemma_rank_bounds(records.drop_first(), id);
    }
}

/// The place `p` is the rank of `id` if every id before it comes before `id`
/// and the id at it does not.
pub proof fn lemma_rank_is(records: Seq<EscrowView>, id: Seq<u8>, p: int)
    requires
        0 <= p <= records.len(),
        forall|j: int| 0 <= j < p ==> lex_less(#[trigger] records[j].id, id),
        p < records.len() ==> !lex_less(records[p].id, id),
    ensures
        rank(records, id) == p,
    decreases records.len(),
{
    if p > 0 {
        let rest = records.drop_first();
        assert(lex_less(records[0].id, id));
        assert forall|j: int| 0 <= j < p - 1 implies lex_less(#[trigger] rest[j].id, id) by {
            assert(rest[j] == records[j + 1]);
        }
        if p - 1 < rest.len() {
            assert(rest[p - 1] == records[p]);
        }
        lemma_rank_is(rest, id, p - 1);
    }
}

/// Every id before the rank of `id` comes before `id`, and the id at the rank
/// does not.
pub proof fn lemma_rank_splits(records: Seq<EscrowView>, id: Seq<u8>)
    ensures
        forall|j: int| 0 <= j < rank(records, id) ==> lex_less(#[trigger] records[j].id, id),
        rank(records, id) < records.len() ==> !lex_less(records[rank(records, id)].id, id),
    decreases records.len(),
{
    lemma_rank_bounds(records, id);
    if records.len() > 0 && lex_less(records[0].id, id) {
        let rest = records.drop_first();
        lemma_rank_splits(rest, id);
        lemma_rank_bounds(rest, id);
        assert forall|j: int| 0 <= j < rank(records, id) implies lex_less(
            #[trigger] records[j].id,
            id,
        ) by {
            if j > 0 {
                assert(records[j] == rest[j - 1]);
            }
        }
        if rank(records, id) < records.len() {
            assert(records[rank(records, id)] == rest[rank(rest, id)]);
        }
    }
}

/// In sorted records an id is kept at one place only.
pub proof fn lemma_position_unique(records: Seq<EscrowView>, id: Seq<u8>, i: int)
    requires
        sorted(records),
        0 <= i < records.len(),
        records[i].id == id,
    ensures
        holds(records, id),
        position(records, id) == i,
        lookup(records, id) == records[i],
{
    let p = position(records, id);
    if p < i {
        assert(lex_less(records[p].id, records[i].id));
        lemma_lex_irreflexive(id);
    } else if i < p {
        assert(lex_less(records[i].id, records[p].id));
        lemma_lex_irreflexive(id);
    }
}

/// In sorted records, `id` is kept exactly if it stands at its rank.
pub proof fn lemma_holds_at_rank(records: Seq<EscrowView>, id: Seq<u8>)
    requires
        sorted(records),
    ensures
        holds(records, id) <==> (rank(records, id) < records.len() && records[rank(
            records,
            id,
        )].id == id),
        holds(records, id) ==> position(records, id) == rank(records, id),
{
    let p = rank(records, id);
    lemma_rank_bounds(records, id);
    lemma_rank_splits(records, id);
    if holds(records, id) {
        let i = position(records, id);
        if i < p {
            assert(lex_less(records[i].id, id));
            lemma_lex_irreflexive(id);
        } else if i > p {
            assert(lex_less(records[p].id, records[i].id));
        }
    }
}

/// Putting a record under a new id into sorted records leaves them sorted,
/// keeps what was kept, and keeps the new record under its id.
pub proof fn lemma_added(records: Seq<EscrowView>, record: EscrowView)
    requires
        sorted(records),
        !holds(records, record.id),
    ensures
        sorted(added(records, record)),
        added(records, record).len() == records.len() + 1,
        holds(added(records, record), record.id),
        lookup(added(records, record), record.id) == record,
        forall|id: Seq<u8>|
            holds(added(records, record), id) <==> (holds(records, id) || id == record.id),
        forall|id: Seq<u8>|
            holds(records, id) ==> lookup(added(records, record), id) == lookup(records, id),
{
    let p = rank(records, record.id);
    let after = added(records, record);
    lemma_rank_bounds(records, record.id);
    lemma_rank_splits(records, record.id);
    assert forall|j: int| p <= j < records.len() implies lex_less(
        record.id,
        #[trigger] records[j].id,
    ) by {
        if !lex_less(record.id, records[p].id) {
            lemma_lex_connected(record.id, records[p].id);
            assert(records[p].id == record.id);
        }
        if j > p {
            assert(lex_less(records[p].id, records[j].id));
            lemma_lex_transitive(record.id, records[p].id, records[j].id);
        }
    }
    assert forall|i: int, j: int| 0 <= i < j < after.len() implies lex_less(
        #[trigger] after[i].id,
        #[trigger] after[j].id,
    ) by {
        let a = if i < p {
            i
        } else {
            i - 1
        };
        let b = if j < p {
            j
        } else {
            j - 1
        };
        if i != p && j != p {
            assert(after[i] == records[a] && after[j] == records[b]);
            assert(lex_less(records[a].id, records[b].id));
        } else if i == p {
            assert(after[j] == records[b]);
        } else {
            assert(after[i] == records[a]);
        }
    }
    assert(after[p] == record);
    lemma_position_unique(after, record.id, p);
    assert forall|id: Seq<u8>| holds(after, id) <==> (holds(records, id) || id == record.id) by {
        if holds(after, id) && id != record.id {
            let i = position(after, id);
            let a = if i < p {
                i
            } else {
                i - 1
            };
            assert(after[i] == records[a]);
            assert(records[a].id == id);
        }
        if holds(records, id) {
            let a = position(records, id);
            let i = if a < p {
                a
            } else {
                a + 1
            };
            assert(after[i] == records[a]);
            assert(after[i].id == id);
        }
    }
    assert forall|id: Seq<u8>| holds(records, id) implies lookup(after, id) == lookup(
        records,
        id,
    ) by {
        let a = position(records, id);
        let i = if a < p {
            a
        } else {
            a + 1
        };
        assert(after[i] == records[a]);
        lemma_position_unique(after, id, i);
    }
}

/// Exchanging the record under `id` for another with the same id leaves
/// sorted records sorted, keeps the same ids, and changes no other record.
pub proof fn lemma_replaced(records: Seq<EscrowView>, id: Seq<u8>, record: EscrowView)
    requires
        sorted(records),
        holds(records, id),
        record.id == id,
    ensures
        sorted(replaced(records, id, record)),
        replaced(records, id, record).len() == records.len(),
        lookup(replaced(records, id, record), id) == record,
        forall|other: Seq<u8>| holds(replaced(records, id, record), other) <==> holds(records, other),
        forall|other: Seq<u8>|
            holds(records, other) && other != id ==> lookup(replaced(records, id, record), other)
                == lookup(records, other),
{
    let p = position(records, id);
    let after = replaced(records, id, record);
    assert forall|i: int, j: int| 0 <= i < j < after.len() implies lex_less(
        #[trigger] after[i].id,
        #[trigger] after[j].id,
    ) by {
        assert(after[i].id == records[i].id && after[j].id == records[j].id);
        assert(lex_less(records[i].id, records[j].id));
    }
    lemma_position_unique(after, id, p);
    assert forall|other: Seq<u8>| holds(after, other) <==> holds(records, other) by {
        if holds(after, other) {
            let i = position(after, other);
            assert(records[i].id == other);
        }
        if holds(records, other) {
            let i = position(records, other);
            assert(after[i].id == other);
        }
    }
    assert forall|other: Seq<u8>| holds(records, other) && other != id implies lookup(
        after,
        other,
    ) == lookup(records, other) by {
        let i = position(records, other);
        assert(after[i] == records[i]);
        lemma_position_unique(after, other, i);
    }
}

/// What the escrow contract holds: the number of escrows ever created, and
/// the escrows themselves in ascending order of their ids.
pub struct EscrowState {
    pub counter: u64,
    pub records: Seq<EscrowView>,
}

/// The record that a successful creation stores.
pub open spec fn fresh_record(
    created_at: u64,
    id: Seq<u8>,
    maker: Seq<u8>,
    amount: i128,
    asset: Seq<u8>,
    hash_lock: Seq<u8>,
    time_lock: u64,
) -> EscrowView {
    EscrowView {
        id,
        maker,
        amount,
        asset,
        hash_lock,
        time_lock,
        status: STATUS_PENDING,
        secret: None,
        created_at,
    }
}

/// Whether the secret with the given digest may complete `record` at the
/// instant `now`, and if not, why not. The status is looked at first, then
/// the secret, then the time lock.
pub open spec fn completion_check(record: EscrowView, digest: Seq<u8>, now: u64) -> Result<
    (),
    Error,
> {
    if record.status != STATUS_LOCKED {
        Err(Error::InvalidStatus)
    } else if digest != record.hash_lock {
        Err(Error::InvalidSecret)
    } else if now > record.time_lock {
        Err(Error::TimelockExpired)
    } else {
        Ok(())
    }
}

/// Whether `record` may be refunded at the instant `now`, and if not, why not.
pub open spec fn refund_check(record: EscrowView, now: u64) -> Result<(), Error> {
    if record.status != STATUS_PENDING && record.status != STATUS_LOCKED {
        Err(Error::InvalidStatus)
    } else if now <= record.time_lock {
        Err(Error::TimelockNotExpired)
    } else {
        Ok(())
    }
}

impl EscrowState {
    /// The records are sorted by id and each is well formed; the counter is
    /// their number, which the statistics can count.
    pub open spec fn wf(self) -> bool {
        &&& sorted(self.records)
        &&& forall|i: int| 0 <= i < self.records.len() ==> (#[trigger] self.records[i]).wf()
        &&& self.counter == self.records.len()
        &&& self.counter <= u32::MAX
    }

    /// The contract after initialization: no escrow, counter zero.
    pub open spec fn initial() -> EscrowState {
        EscrowState { counter: 0, records: Seq::empty() }
    }

    /// The id that the next creation derives for the given instant and
    /// amount: the digest of the instant, the counter after its increment,
    /// and the amount.
    pub open spec fn next_id(self, env: Env, amount: i128) -> Seq<u8> {
        sha256(id_preimage(env.timestamp, env.sequence, (self.counter + 1) as u64, amount))
    }

    /// Creation, for whatever id was derived.
    pub open spec fn create_with_id(
        self,
        env: Env,
        id: Seq<u8>,
        maker: Seq<u8>,
        amount: i128,
        asset: Seq<u8>,
        hash_lock: Seq<u8>,
        time_lock: u64,
    ) -> (EscrowState, Result<Seq<u8>, Rejection>) {
        if amount <= 0 {
            (self, Err(Rejection::Failed(Error::InvalidAmount)))
        } else if !env.authorizes(maker) {
            (self, Err(Rejection::Unauthorized))
        } else if holds(self.records, id) {
            (self, Err(Rejection::Failed(Error::EscrowExists)))
        } else {
            (
                EscrowState {
                    counter: (self.counter + 1) as u64,
                    records: added(
                        self.records,
                        fresh_record(env.timestamp, id, maker, amount, asset, hash_lock, time_lock),
                    ),
                },
                Ok(id),
            )
        }
    }

    /// Creation.
    pub open spec fn create(
        self,
        env: Env,
        maker: Seq<u8>,
        amount: i128,
        asset: Seq<u8>,
        hash_lock: Seq<u8>,
        time_lock: u64,
    ) -> (EscrowState, Result<Seq<u8>, Rejection>) {
        self.create_with_id(
            env,
            self.next_id(env, amount),
            maker,
            amount,
            asset,
            hash_lock,
            time_lock,
        )
    }

    /// Locking by `resolver`.
    pub open spec fn lock(self, env: Env, id: Seq<u8>, resolver: Seq<u8>) -> (
        EscrowState,
        Result<(), Rejection>,
    ) {
        if !env.authorizes(resolver) {
            (self, Err(Rejection::Unauthorized))
        } else if !holds(self.records, id) {
            (self, Err(Rejection::Failed(Error::EscrowNotFound)))
        } else if lookup(self.records, id).status != STATUS_PENDING {
            (self, Err(Rejection::Failed(Error::InvalidStatus)))
        } else {
            (
                EscrowState {
                    records: replaced(
                        self.records,
                        id,
                        lookup(self.records, id).with_status(STATUS_LOCKED),
                    ),
                    ..self
                },
                Ok(()),
            )
        }
    }

    /// Completion by `resolver`, for whatever digest the secret has.
    pub open spec fn complete_with_digest(
        self,
        env: Env,
        id: Seq<u8>,
        secret: Seq<u8>,
        digest: Seq<u8>,
        resolver: Seq<u8>,
    ) -> (EscrowState, Result<(), Rejection>) {
        if !env.authorizes(resolver) {
            (self, Err(Rejection::Unauthorized))
        } else if !holds(self.records, id) {
            (self, Err(Rejection::Failed(Error::EscrowNotFound)))
        } else {
            match completion_check(lookup(self.records, id), digest, env.timestamp) {
                Err(e) => (self, Err(Rejection::Failed(e))),
                Ok(_) => (
                    EscrowState {
                        records: replaced(
                            self.records,
                            id,
                            lookup(self.records, id).completed_by(secret),
                        ),
                        ..self
                    },
                    Ok(()),
                ),
            }
        }
    }

    /// Whether a completion gets as far as hashing the secret: the resolver
    /// authorized the call and a locked escrow is kept under the id.
    pub open spec fn hashes_secret(self, env: Env, id: Seq<u8>, resolver: Seq<u8>) -> bool {
        &&& env.authorizes(resolver)
        &&& holds(self.records, id)
        &&& lookup(self.records, id).status == STATUS_LOCKED
    }

    /// Completion by `resolver`.
    pub open spec fn complete(self, env: Env, id: Seq<u8>, secret: Seq<u8>, resolver: Seq<u8>) -> (
        EscrowState,
        Result<(), Rejection>,
    ) {
        self.complete_with_digest(env, id, secret, sha256(secret), resolver)
    }

    /// Refund. The maker named in the record must have authorized the call.
    pub open spec fn refund(self, env: Env, id: Seq<u8>) -> (EscrowState, Result<(), Rejection>) {
        if !holds(self.records, id) {
            (self, Err(Rejection::Failed(Error::EscrowNotFound)))
        } else if !env.authorizes(lookup(self.records, id).maker) {
            (self, Err(Rejection::Unauthorized))
        } else {
            match refund_check(lookup(self.records, id), env.timestamp) {
                Err(e) => (self, Err(Rejection::Failed(e))),
                Ok(_) => (
                    EscrowState {
                        records: replaced(
                            self.records,
                            id,
                            lookup(self.records, id).with_status(STATUS_REFUNDED),
                        ),
                        ..self
                    },
                    Ok(()),
                ),
            }
        }
    }
}

/// Exchanging a held record for a well-formed one with the same id keeps the
/// contract well formed and holds the same ids.
pub proof fn lemma_exchange_keeps_wf(state: EscrowState, record: EscrowView)
    requires
        state.wf(),
        holds(state.records, record.id),
        record.wf(),
    ensures
        (EscrowState { records: replaced(state.records, record.id, record), ..state }).wf(),
        forall|id: Seq<u8>|
            holds(state.records, id) <==> holds(replaced(state.records, record.id, record), id),
{
    let after = replaced(state.records, record.id, record);
    lemma_replaced(state.records, record.id, record);
    let p = position(state.records, record.id);
    assert forall|i: int| 0 <= i < after.len() implies (#[trigger] after[i]).wf() by {
        if i != p {
            assert(after[i] == state.records[i]);
        }
    }
}

/// Adding a well-formed record under a new id, and counting it, keeps a
/// contract that has room well formed.
pub proof fn lemma_addition_keeps_wf(state: EscrowState, record: EscrowView)
    requires
        state.wf(),
        state.counter < u32::MAX,
        !holds(state.records, record.id),
        record.wf(),
    ensures
        (EscrowState {
            counter: (state.counter + 1) as u64,
            records: added(state.records, record),
        }).wf(),
{
    let after = added(state.records, record);
    let p = rank(state.records, record.id);
    lemma_added(state.records, record);
    lemma_rank_bounds(state.records, record.id);
    assert forall|i: int| 0 <= i < after.len() implies (#[trigger] after[i]).wf() by {
        if i < p {
            assert(after[i] == state.records[i]);
        } else if i > p {
            assert(after[i] == state.records[i - 1]);
        }
    }
}

} // verus!
