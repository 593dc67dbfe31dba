//! The comments that this session has already fetched, by id, so that a
//! discussion that is opened again, and an id that several nodes wait for,
//! cost no second request.

use crate::comment_tree::NodeModel;
use crate::hn_client::{CommentRecord, CommentRecordModel};
use crate::tree_builder::{deliver_forest, forest_pending, PartialTree};
use std::collections::HashMap;
use vstd::prelude::*;

verus! {

/// The records fetched in this session, by the id that was asked for.
#[derive(Debug)]
pub struct CommentCache {
    records: HashMap<u64, CommentRecord>,
}

impl View for CommentCache {
    type V = Map<u64, CommentRecordModel>;

    closed spec fn view(&self) -> Map<u64, CommentRecordModel> {
        Map::new(|id: u64| self.records@.contains_key(id), |id: u64| self.records@[id]@)
    }
}

/// The ids that have to be asked for: those of `pending` that are neither
/// in `cached` nor in `asked`, each once, in the order in which they first
/// occur.
pub open spec fn ids_to_fetch(pending: Seq<u64>, cached: Set<u64>, asked: Seq<u64>) -> Seq<u64>
    decreases pending.len(),
{
    if pending.len() == 0 {
        Seq::empty()
    } else {
        let before = ids_to_fetch(pending.drop_last(), cached, asked);
        let id = pending.last();
        if cached.contains(id) || asked.contains(id) || before.contains(id) {
            before
        } else {
            before.push(id)
        }
    }
}

/// The forest after the cache has answered what it can, and then what it
/// can of the replies that came to wait by its answers, and so on, for at
/// most `rounds` rounds.
pub open spec fn fill_rounds(
    nodes: Seq<NodeModel>,
    cached: Map<u64, CommentRecordModel>,
    rounds: nat,
) -> Seq<NodeModel>
    decreases rounds,
{
    if rounds == 0 || count_cached(forest_pending(nodes), cached.dom()) == 0 {
        nodes
    } else {
        fill_rounds(
            deliver_cached(nodes, forest_pending(nodes), cached),
            cached,
            (rounds - 1) as nat,
        )
    }
}

/// The forest after each id of `ids` that has a record in `cached` was
/// answered with that record, one id after the other.
pub open spec fn deliver_cached(
    nodes: Seq<NodeModel>,
    ids: Seq<u64>,
    cached: Map<u64, CommentRecordModel>,
) -> Seq<NodeModel>
    decreases ids.len(),
{
    if ids.len() == 0 {
        nodes
    } else {
        let before = deliver_cached(nodes, ids.drop_last(), cached);
        if cached.contains_key(ids.last()) {
            deliver_forest(before, ids.last(), Ok(cached[ids.last()]))
        } else {
            before
        }
    }
}

/// How many ids of `ids` have a record in `cached`.
pub open spec fn count_cached(ids: Seq<u64>, cached: Set<u64>) -> nat
    decreases ids.len(),
{
    if ids.len() == 0 {
        0
    } else {
        count_cached(ids.drop_last(), cached) + if cached.contains(ids.last()) {
            1nat
        } else {
            0nat
        }
    }
}

fn contains_id(ids: &Vec<u64>, id: u64) -> (r: bool)
    ensures
        r == ids@.contains(id),
{
    let mut i: usize = 0;
    while i < ids.len()
        invariant
            i <= ids.len(),
            forall|j: int| 0 <= j < i ==> ids@[j] != id,
        decreases ids.len() - i,
    {
        if ids[i] == id {
            return true;
        }
        i = i + 1;
    }
    false
}

impl CommentCache {
    /// A cache without records.
    pub fn new() -> (r: CommentCache)
        ensures
            r@ == Map::<u64, CommentRecordModel>::empty(),
    {
        let cache = CommentCache { records: HashMap::new() };
        assert(cache@ =~= Map::<u64, CommentRecordModel>::empty());
        cache
    }

    /// Keeps the record that the service gave for `id`. A record kept
    /// before for the same id is replaced.
    pub fn store(&mut self, id: u64, record: CommentRecord)
        ensures
            final(self)@ == old(self)@.insert(id, record@),
    {
        self.records.insert(id, record);
        assert(self@ =~= old(self)@.insert(id, record@));
    }

    /// Whether a record is kept for `id`.
    pub fn contains(&self, id: u64) -> (r: bool)
        ensures
            r == self@.contains_key(id),
    {
        self.records.contains_key(&id)
    }

    /// A copy of the record kept for `id`.
    pub fn lookup(&self, id: u64) -> (r: Option<CommentRecord>)
        ensures
            r is Some == self@.contains_key(id),
            r matches Some(record) ==> record@ == self@[id],
    {
        match self.records.get(&id) {
            Some(record) => Some(record.duplicate()),
            None => None,
        }
    }

    /// The ids that have to be asked of the service for `tree`: those that
    /// it waits for, that have no record here and that are not among those
    /// `asked` already, each once.
    pub fn requests_for(&self, tree: &PartialTree, asked: &Vec<u64>) -> (r: Vec<u64>)
        ensures
            r@ == ids_to_fetch(forest_pending(tree@), self@.dom(), asked@),
    {
        let pending = tree.pending_ids();
        let mut out: Vec<u64> = Vec::new();
        let mut i: usize = 0;
        assert(pending@.take(0) =~= Seq::empty());
        while i < pending.len()
            invariant
                i <= pending.len(),
                out@ == ids_to_fetch(pending@.take(i as int), self@.dom(), asked@),
            decreases pending.len() - i,
        {
            proof {
                assert(pending@.take(i + 1).drop_last() =~= pending@.take(i as int));
            }
            let id = pending[i];
            if !self.contains(id) && !contains_id(asked, id) && !contains_id(&out, id) {
                out.push(id);
            }
            i = i + 1;
        }
        proof {
            assert(pending@.take(pending.len() as int) =~= pending@);
        }
        out
    }

    /// Answers from the records kept here every id that `tree` waits for
    /// and that has one. Replies that come to wait by these answers are not
    /// answered in the same call. Returns how many of the ids had a record.
    pub fn fill(&self, tree: &mut PartialTree) -> (r: usize)
        ensures
            final(tree)@ == deliver_cached(old(tree)@, forest_pending(old(tree)@), self@),
            r == count_cached(forest_pending(old(tree)@), self@.dom()),
            old(tree).wf() ==> final(tree).wf(),
    {
        let pending = tree.pending_ids();
        let mut served: usize = 0;
        let mut i: usize = 0;
        assert(pending@.take(0) =~= Seq::empty());
        while i < pending.len()
            invariant
                i <= pending.len(),
                served <= i,
                pending@ == forest_pending(old(tree)@),
                tree@ == deliver_cached(old(tree)@, pending@.take(i as int), self@),
                served == count_cached(pending@.take(i as int), self@.dom()),
                old(tree).wf() ==> tree.wf(),
            decreases pending.len() - i,
        {
            proof {
                assert(pending@.take(i + 1).drop_last() =~= pending@.take(i as int));
            }
            let id = pending[i];
            match self.lookup(id) {
                Some(record) => {
                    tree.deliver(id, Ok(record));
                    served = served + 1;
                },
                None => {},
            }
            i = i + 1;
        }
        proof {
            assert(pending@.take(pending.len() as int) =~= pending@);
        }
        served
    }

    /// Answers from the records kept here what `tree` waits for, then what
    /// waits by these answers, and so on, until a round finds nothing to
    /// answer or `rounds` rounds are done.
    pub fn fill_all(&self, tree: &mut PartialTree, rounds: usize)
        ensures
            final(tree)@ == fill_rounds(old(tree)@, self@, rounds as nat),
            old(tree).wf() ==> final(tree).wf(),
    {
        let mut left = rounds;
        while left > 0
            invariant
                fill_rounds(tree@, self@, left as nat) == fill_rounds(
                    old(tree)@,
                    self@,
                    rounds as nat,
                ),
                old(tree).wf() ==> tree.wf(),
            decreases left,
        {
            let ghost before = tree@;
            let served = self.fill(tree);
            if served == 0 {
                proof {
                    lemma_nothing_cached(before, forest_pending(before), self@);
                }
                return ;
            }
            left = left - 1;
        }
    }
}

/// Where none of the ids has a record, answering from the cache leaves the
/// forest as it was.
pub proof fn lemma_nothing_cached(
    nodes: Seq<NodeModel>,
    ids: Seq<u64>,
    cached: Map<u64, CommentRecordModel>,
)
    requires
        count_cached(ids, cached.dom()) == 0,
    ensures
        deliver_cached(nodes, ids, cached) == nodes,
    decreases ids.len(),
{
    if ids.len() > 0 {
        lemma_nothing_cached(nodes, ids.drop_last(), cached);
    }
}

} // verus!
