//! An in-memory ordered registry of checkpoints, keyed by monotonically
//! increasing identifiers that are never reused.

use vstd::prelude::*;
use crate::snapshot::Snapshot;

verus! {

/// An ordered mapping from identifier to checkpoint, together with the
/// identifier allocator. Entries are kept sorted by strictly increasing
/// identifier; every stored identifier was allocated (it is below
/// `next_id`), and `next_id` starts at 1 and only grows, so identifiers
/// are never reused even after entries are removed.
pub struct CheckpointStore {
    /// The next identifier to hand out; starts at 1.
    pub next_id: u64,
    /// The registered checkpoints, sorted by strictly increasing id.
    pub entries: Vec<Snapshot>,
}

impl View for CheckpointStore {
    type V = Map<u64, Snapshot>;

    /// The registry seen as a mapping from identifier to checkpoint.
    open spec fn view(&self) -> Map<u64, Snapshot> {
        Map::new(|id: u64| self.contains_id(id), |id: u64| self.entries@[self.index_of(id)])
    }
}

impl CheckpointStore {
    /// Well-formedness: ids start at 1, strictly increase along the
    /// entries, and every stored id has been allocated.
    pub open spec fn wf(self) -> bool {
        &&& 1 <= self.next_id
        &&& forall|i: int|
            0 <= i < self.entries@.len() ==> 1 <= #[trigger] self.entries@[i].id < self.next_id
        &&& forall|i: int, j: int|
            0 <= i < j < self.entries@.len() ==> self.entries@[i].id < self.entries@[j].id
    }

    /// Whether some entry carries identifier `id`.
    pub open spec fn contains_id(self, id: u64) -> bool {
        exists|i: int| 0 <= i < self.entries@.len() && #[trigger] self.entries@[i].id == id
    }

    /// The position of the entry carrying identifier `id`, when one exists.
    pub open spec fn index_of(self, id: u64) -> int {
        choose|i: int| 0 <= i < self.entries@.len() && #[trigger] self.entries@[i].id == id
    }

    /// In a well-formed store an identifier occurs at one position at most.
    pub proof fn lemma_id_position_unique(self, i: int, j: int)
        requires
            self.wf(),
            0 <= i < self.entries@.len(),
            0 <= j < self.entries@.len(),
            self.entries@[i].id == self.entries@[j].id,
        ensures
            i == j,
    {
    }

    /// In a well-formed store, the entry at position `i` is the one that
    /// `index_of` finds for its id.
    pub proof fn lemma_index_of_position(self, i: int)
        requires
            self.wf(),
            0 <= i < self.entries@.len(),
        ensures
            self.contains_id(self.entries@[i].id),
            self.index_of(self.entries@[i].id) == i,
    {
        let id = self.entries@[i].id;
        assert(self.contains_id(id));
        self.lemma_id_position_unique(i, self.index_of(id));
    }

    /// The registry mapping reads back exactly the entries: membership is
    /// `contains_id`, and a contained id maps to the entry carrying it.
    pub proof fn lemma_view_entry(self, id: u64)
        requires
            self.wf(),
        ensures
            self@.dom().contains(id) == self.contains_id(id),
            self.contains_id(id) ==> self@[id] == self.entries@[self.index_of(id)],
    {
    }

    /// An empty registry whose first identifier will be 1.
    pub fn new() -> (s: CheckpointStore)
        ensures
            s.wf(),
            s.next_id == 1,
            s@ == Map::<u64, Snapshot>::empty(),
    {
        let s = CheckpointStore { next_id: 1, entries: Vec::new() };
        proof {
            assert(s@ =~= Map::<u64, Snapshot>::empty());
        }
        s
    }

    /// Hands out a fresh identifier: strictly larger than every identifier
    /// ever handed out before, so no two allocations collide and the
    /// registry contents are untouched.
    pub fn allocate_id(&mut self) -> (id: u64)
        requires
            old(self).wf(),
            old(self).next_id < u64::MAX,
        ensures
            final(self).wf(),
            id == old(self).next_id,
            final(self).next_id == old(self).next_id + 1,
            final(self).entries == old(self).entries,
            final(self)@ == old(self)@,
    {
        let id: u64 = self.next_id;
        self.next_id = self.next_id + 1;
        proof {
            assert(self@ =~= old(self)@);
        }
        id
    }

    /// Position of the first entry whose id is at least `id`; the length
    /// when every entry is smaller.
    fn lower_bound(&self, id: u64) -> (pos: usize)
        requires
            self.wf(),
        ensures
            pos <= self.entries@.len(),
            forall|j: int| 0 <= j < pos ==> #[trigger] self.entries@[j].id < id,
            forall|j: int| pos <= j < self.entries@.len() ==> id <= #[trigger] self.entries@[j].id,
    {
        let mut pos: usize = 0;
        while pos < self.entries.len()
            invariant
                self.wf(),
                pos <= self.entries@.len(),
                forall|j: int| 0 <= j < pos ==> #[trigger] self.entries@[j].id < id,
            decreases self.entries@.len() - pos,
        {
            if self.entries[pos].id >= id {
                proof {
                    assert forall|j: int|
                        pos <= j < self.entries@.len() implies id
                        <= #[trigger] self.entries@[j].id by {
                        if pos < j {
                            assert(self.entries@[pos as int].id < self.entries@[j].id);
                        }
                    }
                }
                return pos;
            }
            pos = pos + 1;
        }
        pos
    }

    /// Looks a checkpoint up by id, returning an immutable copy of the
    /// record, or nothing when the id is absent from the registry.
    pub fn get(&self, id: u64) -> (r: Option<Snapshot>)
        requires
            self.wf(),
        ensures
            r == if self@.dom().contains(id) {
                Some(self@[id])
            } else {
                None::<Snapshot>
            },
    {
        proof {
            self.lemma_view_entry(id);
        }
        let pos: usize = self.lower_bound(id);
        if pos < self.entries.len() {
            let e: Snapshot = self.entries[pos];
            if e.id == id {
                proof {
                    self.lemma_index_of_position(pos as int);
                }
                return Some(e);
            }
        }
        proof {
            assert(!self.contains_id(id)) by {
                if self.contains_id(id) {
                    let i = self.index_of(id);
                    assert(self.entries@[i].id == id);
                }
            }
        }
        None
    }

    /// Registers `snap` under its id: inserts a new entry, or overwrites
    /// the entry already carrying that id. Only allocated ids may be
    /// stored, which keeps every registered id below the allocator.
    pub fn put(&mut self, snap: Snapshot)
        requires
            old(self).wf(),
            1 <= snap.id < old(self).next_id,
        ensures
            final(self).wf(),
            final(self).next_id == old(self).next_id,
            final(self)@ == old(self)@.insert(snap.id, snap),
    {
        let ghost pre = *self;
        let pos: usize = self.lower_bound(snap.id);
        if pos < self.entries.len() && self.entries[pos].id == snap.id {
            self.entries.set(pos, snap);
            proof {
                assert(self.wf());
                self.lemma_put_view(pre, pos as int, snap);
            }
        } else {
            self.entries.insert(pos, snap);
            proof {
                assert forall|i: int, j: int|
                    0 <= i < j < self.entries@.len() implies self.entries@[i].id
                    < self.entries@[j].id by {
                    if j < pos {
                        assert(self.entries@[i] == pre.entries@[i]);
                        assert(self.entries@[j] == pre.entries@[j]);
                    } else if i > pos {
                        assert(self.entries@[i] == pre.entries@[i - 1]);
                        assert(self.entries@[j] == pre.entries@[j - 1]);
                    } else if i < pos && j == pos {
                        assert(self.entries@[i] == pre.entries@[i]);
                    } else if i < pos && j > pos {
                        assert(self.entries@[i] == pre.entries@[i]);
                        assert(self.entries@[j] == pre.entries@[j - 1]);
                        assert(pre.entries@[j - 1].id >= snap.id);
                        assert(pre.entries@[j - 1].id != snap.id);
                    } else if i == pos && j > pos {
                        assert(self.entries@[j] == pre.entries@[j - 1]);
                        assert(pre.entries@[j - 1].id >= snap.id);
                        assert(pre.entries@[j - 1].id != snap.id);
                    }
                }
                assert(self.wf());
                self.lemma_put_view(pre, pos as int, snap);
            }
        }
    }

    /// After `put` placed `snap` at position `pos`, the mapping is the old
    /// mapping with `snap.id` bound to `snap`.
    proof fn lemma_put_view(self, pre: CheckpointStore, pos: int, snap: Snapshot)
        requires
            pre.wf(),
            self.wf(),
            0 <= pos <= pre.entries@.len(),
            pos < self.entries@.len(),
            snap.id == self.entries@[pos].id,
            forall|j: int| 0 <= j < pos ==> #[trigger] pre.entries@[j].id < snap.id,
            self.entries@.len() == pre.entries@.len() || self.entries@.len() == pre.entries@.len()
                + 1,
            forall|j: int| 0 <= j < pos ==> #[trigger] self.entries@[j] == pre.entries@[j],
            self.entries@[pos] == snap,
            forall|j: int|
                pos < j < self.entries@.len() ==> #[trigger] self.entries@[j] == pre.entries@[j
                    - (self.entries@.len() - pre.entries@.len())],
            self.entries@.len() == pre.entries@.len() ==> pre.entries@[pos].id == snap.id,
        ensures
            self@ == pre@.insert(snap.id, snap),
    {
        let shift = self.entries@.len() - pre.entries@.len();
        assert forall|k: u64| #[trigger]
            self@.dom().contains(k) == pre@.insert(snap.id, snap).dom().contains(k) && (
            self@.dom().contains(k) ==> self@[k] == pre@.insert(snap.id, snap)[k]) by {
            self.lemma_view_entry(k);
            pre.lemma_view_entry(k);
            if k == snap.id {
                self.lemma_index_of_position(pos);
                assert(self.contains_id(k));
                assert(self@[k] == snap);
            } else {
                if pre.contains_id(k) {
                    let i = pre.index_of(k);
                    assert(pre.entries@[i].id == k);
                    if i < pos {
                        assert(self.entries@[i] == pre.entries@[i]);
                        self.lemma_index_of_position(i);
                    } else if i == pos && shift == 0 {
                        assert(pre.entries@[pos].id == snap.id);
                        assert(false);
                    } else {
                        assert(self.entries@[i + shift] == pre.entries@[i]);
                        self.lemma_index_of_position(i + shift);
                    }
                }
                if self.contains_id(k) {
                    let i = self.index_of(k);
                    assert(self.entries@[i].id == k);
                    if i < pos {
                        assert(pre.entries@[i] == self.entries@[i]);
                        pre.lemma_index_of_position(i);
                    } else if i == pos {
                        assert(k == snap.id);
                    } else {
                        assert(self.entries@[i] == pre.entries@[i - shift]);
                        pre.lemma_index_of_position(i - shift);
                    }
                }
            }
        }
        assert(self@ =~= pre@.insert(snap.id, snap));
    }

    /// Removes every checkpoint whose id is at least `id`. Entries with
    /// smaller ids and the identifier allocator are untouched, so purged
    /// ids are never handed out again.
    pub fn purge_from(&mut self, id: u64)
        requires
            old(self).wf(),
        ensures
            final(self).wf(),
            final(self).next_id == old(self).next_id,
            final(self)@ == old(self)@.restrict(Set::new(|k: u64| k < id)),
    {
        let ghost pre = *self;
        let pos: usize = self.lower_bound(id);
        self.entries.truncate(pos);
        proof {
            assert(self.entries@ == pre.entries@.subrange(0, pos as int));
            assert forall|k: u64| #[trigger]
                self@.dom().contains(k) == pre@.restrict(Set::new(|j: u64| j < id)).dom().contains(
                    k,
                ) && (self@.dom().contains(k) ==> self@[k] == pre@.restrict(
                Set::new(|j: u64| j < id),
            )[k]) by {
                self.lemma_view_entry(k);
                pre.lemma_view_entry(k);
                if self.contains_id(k) {
                    let i = self.index_of(k);
                    assert(self.entries@[i] == pre.entries@[i]);
                    pre.lemma_index_of_position(i);
                    assert(pre.entries@[i].id < id);
                }
                if pre.contains_id(k) && k < id {
                    let i = pre.index_of(k);
                    assert(pre.entries@[i].id == k);
                    assert(i < pos);
                    assert(self.entries@[i] == pre.entries@[i]);
                    self.lemma_index_of_position(i);
                }
            }
            assert(self@ =~= pre@.restrict(Set::new(|k: u64| k < id)));
        }
    }
}

} // verus!
