//! The store of escrow records, keyed by id and kept in ascending order of
//! the ids, as the ledger keeps a map.

use crate::bytes::{bytes_eq, bytes_less, lemma_lex_transitive, lex_less};
use crate::escrow_model::{
    added,
    holds,
    lemma_added,
    lemma_holds_at_rank,
    lemma_position_unique,
    lemma_rank_is,
    lemma_replaced,
    lookup,
    rank,
    replaced,
    sorted,
};
use crate::escrow_types::{Escrow, EscrowView};
use vstd::prelude::*;

verus! {

/// Escrow records by id. A record is found by halving the range in which its
/// id lies, so an access reads few records beside the one asked for.
#[derive(Debug)]
pub struct Registry {
    entries: Vec<Escrow>,
}

impl View for Registry {
    type V = Seq<EscrowView>;

    closed spec fn view(&self) -> Seq<EscrowView> {
        self.entries@.map_values(|e: Escrow| e@)
    }
}

impl Registry {
    /// The records stand in strictly ascending order of their ids.
    pub open spec fn wf(&self) -> bool {
        sorted(self@)
    }

    /// The registry that holds nothing.
    pub fn new() -> (registry: Registry)
        ensures
            registry@ == Seq::<EscrowView>::empty(),
            registry.wf(),
    {
        let registry = Registry { entries: Vec::new() };
        assert(registry@ =~= Seq::<EscrowView>::empty());
        registry
    }

    /// The number of records.
    pub fn len(&self) -> (n: usize)
        ensures
            n == self@.len(),
    {
        self.entries.len()
    }

    /// The record at place `i` of the ascending order.
    pub fn record_at(&self, i: usize) -> (record: &Escrow)
        requires
            i < self@.len(),
        ensures
            record@ == self@[i as int],
    {
        &self.entries[i]
    }

    /// The place at which a record under `id` stands or belongs, found by
    /// halving the range in which it lies.
    fn locate(&self, id: &Vec<u8>) -> (p: usize)
        requires
            self.wf(),
        ensures
            p == rank(self@, id@),
            p <= self@.len(),
    {
        let mut lo: usize = 0;
        let mut hi: usize = self.entries.len();
        while lo < hi
            invariant
                lo <= hi <= self.entries@.len(),
                self.wf(),
                forall|j: int| 0 <= j < lo ==> lex_less(#[trigger] self@[j].id, id@),
                forall|j: int| hi <= j < self@.len() ==> !lex_less(#[trigger] self@[j].id, id@),
            decreases hi - lo,
        {
            let mid = lo + (hi - lo) / 2;
            if bytes_less(&self.entries[mid].id, id) {
                assert forall|j: int| 0 <= j < mid + 1 implies lex_less(
                    #[trigger] self@[j].id,
                    id@,
                ) by {
                    if j < mid {
                        assert(lex_less(self@[j].id, self@[mid as int].id));
                        lemma_lex_transitive(self@[j].id, self@[mid as int].id, id@);
                    }
                }
                lo = mid + 1;
            } else {
                assert forall|j: int| mid <= j < self@.len() implies !lex_less(
                    #[trigger] self@[j].id,
                    id@,
                ) by {
                    if j > mid && lex_less(self@[j].id, id@) {
                        assert(lex_less(self@[mid as int].id, self@[j].id));
                        lemma_lex_transitive(self@[mid as int].id, self@[j].id, id@);
                    }
                }
                hi = mid;
            }
        }
        proof {
            lemma_rank_is(self@, id@, lo as int);
        }
        lo
    }

    /// The registry of the given records, if they stand in strictly ascending
    /// order of their ids.
    pub fn from_records(records: Vec<Escrow>) -> (registry: Option<Registry>)
        ensures
            registry.is_some() == sorted(records@.map_values(|e: Escrow| e@)),
            registry matches Some(r) ==> r@ == records@.map_values(|e: Escrow| e@) && r.wf(),
    {
        let ghost views = records@.map_values(|e: Escrow| e@);
        let mut i: usize = 1;
        while i < records.len()
            invariant
                1 <= i,
                views == records@.map_values(|e: Escrow| e@),
                forall|a: int, b: int|
                    0 <= a < b < i && b < views.len() ==> lex_less(
                        #[trigger] views[a].id,
                        #[trigger] views[b].id,
                    ),
            decreases records@.len() - i,
        {
            if !bytes_less(&records[i - 1].id, &records[i].id) {
                assert(!lex_less(views[i - 1].id, views[i as int].id));
                return None;
            }
            assert forall|a: int, b: int| 0 <= a < b < i + 1 && b < views.len() implies lex_less(
                #[trigger] views[a].id,
                #[trigger] views[b].id,
            ) by {
                if b == i && a < i - 1 {
                    assert(lex_less(views[a].id, views[i - 1].id));
                    lemma_lex_transitive(views[a].id, views[i - 1].id, views[i as int].id);
                }
            }
            i += 1;
        }
        Some(Registry { entries: records })
    }

    /// Copies of all records, in ascending order of their ids.
    pub fn records(&self) -> (records: Vec<Escrow>)
        ensures
            records@.map_values(|e: Escrow| e@) == self@,
    {
        let mut records: Vec<Escrow> = Vec::new();
        let mut i: usize = 0;
        while i < self.entries.len()
            invariant
                i <= self.entries@.len(),
                records@.map_values(|e: Escrow| e@) == self@.take(i as int),
            decreases self.entries@.len() - i,
        {
            let ghost copied = records@.map_values(|e: Escrow| e@);
            records.push(self.entries[i].clone());
            assert(records@.map_values(|e: Escrow| e@) =~= copied.push(self@[i as int]));
            assert(self@.take(i + 1) =~= self@.take(i as int).push(self@[i as int]));
            i += 1;
        }
        assert(self@.take(self.entries@.len() as int) =~= self@);
        records
    }

    /// Whether a record is kept under `id`.
    pub fn contains(&self, id: &Vec<u8>) -> (found: bool)
        requires
            self.wf(),
        ensures
            found == holds(self@, id@),
    {
        let p = self.locate(id);
        proof {
            lemma_holds_at_rank(self@, id@);
        }
        p < self.entries.len() && bytes_eq(&self.entries[p].id, id)
    }

    /// A copy of the record kept under `id`, if there is one.
    pub fn get(&self, id: &Vec<u8>) -> (found: Option<Escrow>)
        requires
            self.wf(),
        ensures
            found.is_some() == holds(self@, id@),
            found matches Some(record) ==> record@ == lookup(self@, id@) && record@.id == id@,
    {
        let p = self.locate(id);
        proof {
            lemma_holds_at_rank(self@, id@);
        }
        if p < self.entries.len() && bytes_eq(&self.entries[p].id, id) {
            proof {
                lemma_position_unique(self@, id@, p as int);
            }
            Some(self.entries[p].clone())
        } else {
            None
        }
    }

    /// Keeps `record` under its id, in place of the record that was kept
    /// under that id, if there was one.
    pub fn set(&mut self, record: Escrow)
        requires
            old(self).wf(),
        ensures
            final(self).wf(),
            holds(old(self)@, record@.id) ==> final(self)@ == replaced(
                old(self)@,
                record@.id,
                record@,
            ),
            !holds(old(self)@, record@.id) ==> final(self)@ == added(old(self)@, record@),
    {
        let p = self.locate(&record.id);
        proof {
            lemma_holds_at_rank(self@, record@.id);
        }
        if p < self.entries.len() && bytes_eq(&self.entries[p].id, &record.id) {
            proof {
                lemma_position_unique(self@, record@.id, p as int);
                lemma_replaced(self@, record@.id, record@);
            }
            self.entries[p] = record;
            assert(self@ =~= replaced(old(self)@, record@.id, record@));
        } else {
            proof {
                lemma_added(self@, record@);
            }
            self.entries.insert(p, record);
            assert(self@ =~= added(old(self)@, record@));
        }
    }
}

} // verus!
