//! The index of a journal's logged copies: for each filesystem block, the
//! copies the journal holds of it, newest first, each within the part of
//! the journal that was scanned.

use std::collections::HashMap;

use vstd::prelude::*;

use crate::ext::journal::{insert_newest_first, lemma_insert_keeps_order, newest_first, LoggedBlock};

verus! {

broadcast use vstd::std_specs::hash::group_hash_axioms;

/// The logged copies of each filesystem block.
#[derive(Debug)]
pub struct JournalIndex {
    logged: HashMap<u64, Vec<LoggedBlock>>,
    limit: u64,
}

/// The copies of `block` in `m` (none when it has no entry).
pub open spec fn copies_in(m: Map<u64, Vec<LoggedBlock>>, block: u64) -> Seq<LoggedBlock> {
    if m.contains_key(block) {
        m[block]@
    } else {
        Seq::empty()
    }
}

/// Every block's copies in `m` are newest first and lie below `limit`; a
/// block with an entry has at least one copy.
pub open spec fn copies_ok(m: Map<u64, Vec<LoggedBlock>>, limit: u64) -> bool {
    forall|b: u64|
        #![trigger copies_in(m, b)]
        {
            &&& newest_first(copies_in(m, b))
            &&& forall|i: int|
                0 <= i < copies_in(m, b).len() ==> (#[trigger] copies_in(m, b)[i]).journal_block < limit
            &&& m.dom().contains(b) <==> copies_in(m, b).len() > 0
        }
}

impl JournalIndex {
    /// The filesystem blocks that have copies.
    pub closed spec fn blocks(&self) -> Set<u64> {
        self.logged@.dom()
    }

    /// The copies of `block`, in the index's order (none when it has none).
    pub closed spec fn copies_of(&self, block: u64) -> Seq<LoggedBlock> {
        copies_in(self.logged@, block)
    }

    /// The journal blocks below which every copy lies.
    pub closed spec fn spec_limit(&self) -> u64 {
        self.limit
    }

    #[verifier::type_invariant]
    spec fn index_ok(&self) -> bool {
        copies_ok(self.logged@, self.limit)
    }

    /// An empty index for a journal scanned up to block `limit`.
    pub fn new(limit: u64) -> (x: Self)
        ensures
            x.spec_limit() == limit,
            x.blocks() == Set::<u64>::empty(),
    {
        let logged: HashMap<u64, Vec<LoggedBlock>> = HashMap::new();
        assert forall|b: u64| #![trigger copies_in(logged@, b)] copies_in(logged@, b)
            == Seq::<LoggedBlock>::empty() by {}
        JournalIndex { logged, limit }
    }

    /// Records `copy` of filesystem block `block`: it goes after every copy
    /// of a sequence at least as high and before the first of a lower one;
    /// the other blocks keep their copies.
    pub fn add(&mut self, block: u64, copy: LoggedBlock)
        requires
            copy.journal_block < old(self).spec_limit(),
        ensures
            final(self).spec_limit() == old(self).spec_limit(),
            final(self).blocks() == old(self).blocks().insert(block),
            forall|b: u64| b != block ==> #[trigger] final(self).copies_of(b) == old(self).copies_of(b),
            exists|k: int|
                #![trigger old(self).copies_of(block).subrange(0, k)]
                {
                    let s = old(self).copies_of(block);
                    &&& 0 <= k <= s.len()
                    &&& final(self).copies_of(block) == s.subrange(0, k).push(copy) + s.subrange(
                        k,
                        s.len() as int,
                    )
                    &&& forall|j: int| 0 <= j < k ==> #[trigger] s[j].sequence >= copy.sequence
                    &&& k < s.len() ==> s[k].sequence < copy.sequence
                },
    {
        proof {
            use_type_invariant(&*self);
        }
        let ghost before = old(self).copies_of(block);
        let mut logged: HashMap<u64, Vec<LoggedBlock>> = HashMap::new();
        std::mem::swap(&mut logged, &mut self.logged);
        let mut v = match logged.remove(&block) {
            Some(v) => v,
            None => Vec::new(),
        };
        assert(v@ == before);
        insert_newest_first(&mut v, copy);
        let ghost k = choose|k: int|
            0 <= k <= before.len() && v@ == before.subrange(0, k).push(copy) + before.subrange(
                k,
                before.len() as int,
            ) && (forall|j: int| 0 <= j < k ==> #[trigger] before[j].sequence >= copy.sequence)
                && (k < before.len() ==> before[k].sequence < copy.sequence);
        proof {
            lemma_insert_keeps_order(before, copy, k);
            let s = v@;
            assert forall|i: int| 0 <= i < s.len() implies (#[trigger] s[i]).journal_block
                < old(self).spec_limit() by {
                if i < k {
                    assert(s[i] == before[i]);
                } else if i > k {
                    assert(s[i] == before[i - 1]);
                }
            }
            assert(s.len() == before.len() + 1);
        }
        logged.insert(block, v);
        proof {
            let m0 = old(self).logged@;
            let m = logged@;
            assert(copies_in(m, block) == v@);
            assert forall|b: u64| #![trigger copies_in(m, b)] b != block implies copies_in(m, b)
                == copies_in(m0, b) by {}
            assert(copies_ok(m, self.limit)) by {
                assert forall|b: u64| #![trigger copies_in(m, b)] {
                    &&& newest_first(copies_in(m, b))
                    &&& forall|i: int|
                        0 <= i < copies_in(m, b).len() ==> (#[trigger] copies_in(m, b)[i]).journal_block
                            < self.limit
                    &&& m.dom().contains(b) <==> copies_in(m, b).len() > 0
                } by {
                    if b != block {
                        assert(copies_in(m, b) == copies_in(m0, b));
                    }
                }
            }
            assert(m.dom() =~= m0.dom().insert(block));
        }
        self.logged = logged;
    }

    /// The copies of filesystem block `block`, newest first.
    pub fn copies(&self, block: u64) -> (r: &[LoggedBlock])
        ensures
            r@ == self.copies_of(block),
            newest_first(r@),
    {
        proof {
            use_type_invariant(self);
            assert(newest_first(self.copies_of(block)));
        }
        match self.logged.get(&block) {
            Some(v) => v.as_slice(),
            None => &[],
        }
    }

    /// How many filesystem blocks have copies.
    pub fn len(&self) -> (n: usize)
        ensures
            n == self.blocks().len(),
    {
        self.logged.len()
    }
}

} // verus!
