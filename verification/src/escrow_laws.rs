//! What holds of the escrow contract over any run of calls.

use crate::env::Env;
use crate::escrow_model::{
    count_status,
    fresh_record,
    holds,
    lemma_added,
    lemma_addition_keeps_wf,
    lemma_exchange_keeps_wf,
    lemma_replaced,
    lookup,
    EscrowState,
};
use crate::escrow_types::{
    Error,
    EscrowView,
    Rejection,
    STATUS_COMPLETED,
    STATUS_LOCKED,
    STATUS_PENDING,
    STATUS_REFUNDED,
};
use crate::hashing::sha256;
use vstd::prelude::*;

verus! {

/// One call of an operation that changes the contract, with its arguments.
pub enum Call {
    Create {
        env: Env,
        maker: Seq<u8>,
        amount: i128,
        asset: Seq<u8>,
        hash_lock: Seq<u8>,
        time_lock: u64,
    },
    Lock { env: Env, id: Seq<u8>, resolver: Seq<u8> },
    Complete { env: Env, id: Seq<u8>, secret: Seq<u8>, resolver: Seq<u8> },
    Refund { env: Env, id: Seq<u8> },
}

/// The contract after `call`.
pub open spec fn step(state: EscrowState, call: Call) -> EscrowState {
    match call {
        Call::Create { env, maker, amount, asset, hash_lock, time_lock } => state.create(
            env,
            maker,
            amount,
            asset,
            hash_lock,
            time_lock,
        ).0,
        Call::Lock { env, id, resolver } => state.lock(env, id, resolver).0,
        Call::Complete { env, id, secret, resolver } => state.complete(env, id, secret, resolver).0,
        Call::Refund { env, id } => state.refund(env, id).0,
    }
}

/// The id that `call` returns, if it is a creation that succeeds.
pub open spec fn created_by(state: EscrowState, call: Call) -> Option<Seq<u8>> {
    match call {
        Call::Create { env, maker, amount, asset, hash_lock, time_lock } => match state.create(
            env,
            maker,
            amount,
            asset,
            hash_lock,
            time_lock,
        ).1 {
            Ok(id) => Some(id),
            Err(_) => None,
        },
        _ => None,
    }
}

/// The contract after the calls, made one after the other.
pub open spec fn run(state: EscrowState, calls: Seq<Call>) -> EscrowState
    decreases calls.len(),
{
    if calls.len() == 0 {
        state
    } else {
        step(run(state, calls.drop_last()), calls.last())
    }
}

/// The ids that the creations among the calls return, in the order of the
/// calls.
pub open spec fn created_ids(state: EscrowState, calls: Seq<Call>) -> Seq<Seq<u8>>
    decreases calls.len(),
{
    if calls.len() == 0 {
        Seq::empty()
    } else {
        let earlier = created_ids(state, calls.drop_last());
        match created_by(run(state, calls.drop_last()), calls.last()) {
            Some(id) => earlier.push(id),
            None => earlier,
        }
    }
}

/// One call keeps the contract well formed, keeps every id that was held,
/// and takes the counter up by at most one.
pub proof fn law_step_keeps_wf(state: EscrowState, call: Call)
    requires
        state.wf(),
        state.counter < u32::MAX,
    ensures
        step(state, call).wf(),
        state.counter <= step(state, call).counter <= state.counter + 1,
        forall|id: Seq<u8>| holds(state.records, id) ==> holds(step(state, call).records, id),
        created_by(state, call) matches Some(id) ==> !holds(state.records, id) && holds(
            step(state, call).records,
            id,
        ),
{
    let after = step(state, call);
    match call {
        Call::Create { env, maker, amount, asset, hash_lock, time_lock } => {
            let id = state.next_id(env, amount);
            if after != state {
                let record = fresh_record(
                    env.timestamp,
                    id,
                    maker,
                    amount,
                    asset,
                    hash_lock,
                    time_lock,
                );
                lemma_added(state.records, record);
                lemma_addition_keeps_wf(state, record);
            }
        },
        Call::Lock { env, id, resolver } => {
            if after != state {
                lemma_exchange_keeps_wf(state, lookup(state.records, id).with_status(STATUS_LOCKED));
            }
        },
        Call::Complete { env, id, secret, resolver } => {
            if after != state {
                lemma_exchange_keeps_wf(state, lookup(state.records, id).completed_by(secret));
            }
        },
        Call::Refund { env, id } => {
            if after != state {
                lemma_exchange_keeps_wf(state, lookup(state.records, id).with_status(STATUS_REFUNDED));
            }
        },
    }
}

/// A run of calls keeps the contract well formed, and every id that a
/// creation of the run returned is held at its end.
pub proof fn law_run_keeps_wf(state: EscrowState, calls: Seq<Call>)
    requires
        state.wf(),
        state.counter + calls.len() <= u32::MAX,
    ensures
        run(state, calls).wf(),
        run(state, calls).counter <= state.counter + calls.len(),
        forall|id: Seq<u8>| holds(state.records, id) ==> holds(run(state, calls).records, id),
        forall|k: int|
            0 <= k < created_ids(state, calls).len() ==> holds(
                run(state, calls).records,
                #[trigger] created_ids(state, calls)[k],
            ),
    decreases calls.len(),
{
    if calls.len() > 0 {
        let before = run(state, calls.drop_last());
        law_run_keeps_wf(state, calls.drop_last());
        law_step_keeps_wf(before, calls.last());
        let ids = created_ids(state, calls);
        let ids_before = created_ids(state, calls.drop_last());
        assert forall|k: int| 0 <= k < ids.len() implies holds(
            run(state, calls).records,
            #[trigger] ids[k],
        ) by {
            if k < ids_before.len() {
                assert(ids[k] == ids_before[k]);
                assert(holds(before.records, ids_before[k]));
            }
        }
    }
}

/// The ids that the creations of a run return are pairwise distinct, and
/// none of them was held before the run: also where two creations have the
/// same maker, amount, asset and hash lock at the same ledger time and
/// sequence number.
pub proof fn law_created_ids_distinct(state: EscrowState, calls: Seq<Call>)
    requires
        state.wf(),
        state.counter + calls.len() <= u32::MAX,
    ensures
        forall|i: int, j: int|
            0 <= i < j < created_ids(state, calls).len() ==> created_ids(state, calls)[i]
                != created_ids(state, calls)[j],
        forall|k: int|
            0 <= k < created_ids(state, calls).len() ==> !holds(
                state.records,
                #[trigger] created_ids(state, calls)[k],
            ),
    decreases calls.len(),
{
    if calls.len() > 0 {
        let earlier = calls.drop_last();
        let before = run(state, earlier);
        law_created_ids_distinct(state, earlier);
        law_run_keeps_wf(state, earlier);
        law_step_keeps_wf(before, calls.last());
        let ids = created_ids(state, calls);
        let ids_before = created_ids(state, earlier);
        assert forall|i: int, j: int| 0 <= i < j < ids.len() implies ids[i] != ids[j] by {
            if j < ids_before.len() {
                assert(ids[i] == ids_before[i] && ids[j] == ids_before[j]);
            } else {
                assert(ids[i] == ids_before[i]);
                assert(holds(before.records, ids_before[i]));
            }
        }
        assert forall|k: int| 0 <= k < ids.len() implies !holds(
            state.records,
            #[trigger] ids[k],
        ) by {
            if k < ids_before.len() {
                assert(ids[k] == ids_before[k]);
            }
        }
    }
}

/// Completion succeeds exactly if the resolver authorized the call, the
/// escrow is locked, the secret hashes to the hash lock and the ledger's time
/// is not past the time lock. Where it does not succeed, the first of these
/// to fail decides the outcome: no authorization, `EscrowNotFound`,
/// `InvalidStatus`, `InvalidSecret`, `TimelockExpired`.
pub proof fn law_completion(
    state: EscrowState,
    env: Env,
    id: Seq<u8>,
    secret: Seq<u8>,
    resolver: Seq<u8>,
)
    ensures
        ({
            let outcome = state.complete(env, id, secret, resolver).1;
            let record = lookup(state.records, id);
            &&& outcome is Ok <==> env.authorizes(resolver) && holds(state.records, id)
                && record.status == STATUS_LOCKED && sha256(secret) == record.hash_lock
                && env.timestamp <= record.time_lock
            &&& outcome == Err::<(), Rejection>(Rejection::Unauthorized) <==> !env.authorizes(
                resolver,
            )
            &&& outcome == Err::<(), Rejection>(Rejection::Failed(Error::EscrowNotFound))
                <==> env.authorizes(resolver) && !holds(state.records, id)
            &&& outcome == Err::<(), Rejection>(Rejection::Failed(Error::InvalidStatus))
                <==> env.authorizes(resolver) && holds(state.records, id) && record.status
                != STATUS_LOCKED
            &&& outcome == Err::<(), Rejection>(Rejection::Failed(Error::InvalidSecret))
                <==> env.authorizes(resolver) && holds(state.records, id) && record.status
                == STATUS_LOCKED && sha256(secret) != record.hash_lock
            &&& outcome == Err::<(), Rejection>(Rejection::Failed(Error::TimelockExpired))
                <==> env.authorizes(resolver) && holds(state.records, id) && record.status
                == STATUS_LOCKED && sha256(secret) == record.hash_lock && env.timestamp
                > record.time_lock
            &&& outcome is Err ==> state.complete(env, id, secret, resolver).0 == state
        }),
{
}

/// Refund succeeds exactly if an escrow is held under the id, the maker named
/// in it authorized the call, it is pending or locked, and the ledger's time
/// is past the time lock. Where it does not succeed, the first of these to
/// fail decides the outcome, and nothing changes.
pub proof fn law_refund(state: EscrowState, env: Env, id: Seq<u8>)
    ensures
        ({
            let outcome = state.refund(env, id).1;
            let record = lookup(state.records, id);
            &&& outcome is Ok <==> holds(state.records, id) && env.authorizes(record.maker) && (
            record.status == STATUS_PENDING || record.status == STATUS_LOCKED) && env.timestamp
                > record.time_lock
            &&& outcome == Err::<(), Rejection>(Rejection::Failed(Error::EscrowNotFound))
                <==> !holds(state.records, id)
            &&& outcome == Err::<(), Rejection>(Rejection::Unauthorized) <==> holds(
                state.records,
                id,
            ) && !env.authorizes(record.maker)
            &&& outcome == Err::<(), Rejection>(Rejection::Failed(Error::InvalidStatus))
                <==> holds(state.records, id) && env.authorizes(record.maker) && record.status
                != STATUS_PENDING && record.status != STATUS_LOCKED
            &&& outcome == Err::<(), Rejection>(Rejection::Failed(Error::TimelockNotExpired))
                <==> holds(state.records, id) && env.authorizes(record.maker) && (record.status
                == STATUS_PENDING || record.status == STATUS_LOCKED) && env.timestamp
                <= record.time_lock
            &&& outcome is Err ==> state.refund(env, id).0 == state
        }),
{
}

/// At no instant can one escrow be both completed and refunded: completion
/// asks for a time up to the time lock, refund for a time past it.
pub proof fn law_windows_disjoint(
    state: EscrowState,
    env: Env,
    id: Seq<u8>,
    secret: Seq<u8>,
    resolver: Seq<u8>,
)
    ensures
        !(state.complete(env, id, secret, resolver).1 is Ok && state.refund(env, id).1 is Ok),
{
}

/// On a completed or refunded escrow no lock, completion or refund succeeds.
pub proof fn law_terminal_refuses(state: EscrowState, call: Call, id: Seq<u8>)
    requires
        holds(state.records, id),
        lookup(state.records, id).terminal(),
    ensures
        call matches Call::Lock { env, id: target, resolver } ==> target == id ==> state.lock(
            env,
            id,
            resolver,
        ).1 is Err,
        call matches Call::Complete { env, id: target, secret, resolver } ==> target == id
            ==> state.complete(env, id, secret, resolver).1 is Err,
        call matches Call::Refund { env, id: target } ==> target == id ==> state.refund(
            env,
            id,
        ).1 is Err,
{
}

/// No call changes a completed or refunded escrow.
pub proof fn law_terminal_stays(state: EscrowState, call: Call, id: Seq<u8>)
    requires
        state.wf(),
        holds(state.records, id),
        lookup(state.records, id).terminal(),
    ensures
        holds(step(state, call).records, id),
        lookup(step(state, call).records, id) == lookup(state.records, id),
{
    let after = step(state, call);
    if after != state {
        match call {
            Call::Create { env, maker, amount, asset, hash_lock, time_lock } => {
                lemma_added(
                    state.records,
                    fresh_record(
                        env.timestamp,
                        state.next_id(env, amount),
                        maker,
                        amount,
                        asset,
                        hash_lock,
                        time_lock,
                    ),
                );
            },
            Call::Lock { env, id: target, resolver } => {
                lemma_replaced(
                    state.records,
                    target,
                    lookup(state.records, target).with_status(STATUS_LOCKED),
                );
            },
            Call::Complete { env, id: target, secret, resolver } => {
                lemma_replaced(
                    state.records,
                    target,
                    lookup(state.records, target).completed_by(secret),
                );
            },
            Call::Refund { env, id: target } => {
                lemma_replaced(
                    state.records,
                    target,
                    lookup(state.records, target).with_status(STATUS_REFUNDED),
                );
            },
        }
    }
}

/// Once an escrow is completed or refunded, it stays as it is through any
/// run of calls.
pub proof fn law_terminal_forever(state: EscrowState, calls: Seq<Call>, id: Seq<u8>)
    requires
        state.wf(),
        state.counter + calls.len() <= u32::MAX,
        holds(state.records, id),
        lookup(state.records, id).terminal(),
    ensures
        holds(run(state, calls).records, id),
        lookup(run(state, calls).records, id) == lookup(state.records, id),
    decreases calls.len(),
{
    if calls.len() > 0 {
        law_terminal_forever(state, calls.drop_last(), id);
        law_run_keeps_wf(state, calls.drop_last());
        law_terminal_stays(run(state, calls.drop_last()), calls.last(), id);
    }
}

/// After a successful completion the escrow is completed and holds exactly
/// the secret that was passed, and it still does after any run of calls.
pub proof fn law_secret_kept(
    state: EscrowState,
    env: Env,
    id: Seq<u8>,
    secret: Seq<u8>,
    resolver: Seq<u8>,
    calls: Seq<Call>,
)
    requires
        state.wf(),
        state.counter + calls.len() <= u32::MAX,
        state.complete(env, id, secret, resolver).1 is Ok,
    ensures
        ({
            let completed = state.complete(env, id, secret, resolver).0;
            &&& holds(completed.records, id)
            &&& lookup(completed.records, id).status == STATUS_COMPLETED
            &&& lookup(completed.records, id).secret == Some(secret)
            &&& holds(run(completed, calls).records, id)
            &&& lookup(run(completed, calls).records, id).secret == Some(secret)
        }),
{
    let completed = state.complete(env, id, secret, resolver).0;
    let record = lookup(state.records, id).completed_by(secret);
    assert(lookup(state.records, id).id == id);
    lemma_replaced(state.records, id, record);
    lemma_exchange_keeps_wf(state, record);
    law_terminal_forever(completed, calls, id);
}

/// Each record with a status of the four is counted under exactly one of
/// them.
proof fn lemma_counts_add_up(records: Seq<EscrowView>)
    requires
        forall|i: int| 0 <= i < records.len() ==> (#[trigger] records[i]).wf(),
    ensures
        count_status(records, STATUS_PENDING) + count_status(records, STATUS_LOCKED)
            + count_status(records, STATUS_COMPLETED) + count_status(records, STATUS_REFUNDED)
            == records.len(),
    decreases records.len(),
{
    if records.len() > 0 {
        let rest = records.drop_last();
        assert forall|i: int| 0 <= i < rest.len() implies (#[trigger] rest[i]).wf() by {
            assert(rest[i] == records[i]);
        }
        lemma_counts_add_up(rest);
        assert(records.last().wf());
    }
}

/// The numbers of pending, locked, completed and refunded escrows add up to
/// the counter, in every state that a run of calls can reach.
pub proof fn law_stats_conservation(state: EscrowState, calls: Seq<Call>)
    requires
        state.wf(),
        state.counter + calls.len() <= u32::MAX,
    ensures
        ({
            let reached = run(state, calls);
            count_status(reached.records, STATUS_PENDING) + count_status(
                reached.records,
                STATUS_LOCKED,
            ) + count_status(reached.records, STATUS_COMPLETED) + count_status(
                reached.records,
                STATUS_REFUNDED,
            ) == reached.counter
        }),
{
    law_run_keeps_wf(state, calls);
    lemma_counts_add_up(run(state, calls).records);
}

} // verus!
