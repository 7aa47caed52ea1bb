//! The file-head byte cache: a map from inode to a prefetched prefix of the
//! file's bytes, paired with an index list of the cached inodes in insertion
//! order. The two structures are kept consistent, the entry count is bounded
//! by the configured maximum plus one transient entry, and eviction never
//! removes the inode being read.
use vstd::prelude::*;

verus! {

pub struct HeadEntry {
    pub ino: u64,
    pub data: Vec<u8>,
}

/// The head cache: `entries` holds the cached bytes, `index` the cached
/// inodes in insertion order. Position `i` of both refers to the same inode.
pub struct HeadCache {
    pub entries: Vec<HeadEntry>,
    pub index: Vec<u64>,
}

/// The map an entry list denotes.
pub open spec fn head_map_of(s: Seq<HeadEntry>) -> Map<u64, Seq<u8>>
    decreases s.len(),
{
    if s.len() == 0 {
        Map::empty()
    } else {
        head_map_of(s.drop_last()).insert(s.last().ino, s.last().data@)
    }
}

pub proof fn lemma_head_map_contains(s: Seq<HeadEntry>, k: u64)
    ensures
        head_map_of(s).contains_key(k) <==> exists|i: int| 0 <= i < s.len() && s[i].ino == k,
    decreases s.len(),
{
    if s.len() > 0 {
        lemma_head_map_contains(s.drop_last(), k);
        if s.last().ino == k {
            assert(s[s.len() - 1].ino == k);
        } else if head_map_of(s).contains_key(k) {
            let i = choose|i: int| 0 <= i < s.drop_last().len() && s.drop_last()[i].ino == k;
            assert(s[i].ino == k);
        } else {
            assert(forall|i: int| 0 <= i < s.drop_last().len() ==> s.drop_last()[i].ino == s[i].ino);
        }
    }
}

pub proof fn lemma_head_map_value(s: Seq<HeadEntry>, i: int)
    requires
        0 <= i < s.len(),
        forall|a: int, b: int| 0 <= a < b < s.len() ==> s[a].ino != s[b].ino,
    ensures
        head_map_of(s).contains_key(s[i].ino),
        head_map_of(s)[s[i].ino] == s[i].data@,
    decreases s.len(),
{
    lemma_head_map_contains(s, s[i].ino);
    if i < s.len() - 1 {
        assert(s[i].ino != s.last().ino);
        lemma_head_map_value(s.drop_last(), i);
    }
}

pub proof fn lemma_head_map_remove(s: Seq<HeadEntry>, j: int)
    requires
        0 <= j < s.len(),
        forall|a: int, b: int| 0 <= a < b < s.len() ==> s[a].ino != s[b].ino,
    ensures
        head_map_of(s.remove(j)) == head_map_of(s).remove(s[j].ino),
    decreases s.len(),
{
    if j == s.len() - 1 {
        assert(s.remove(j) =~= s.drop_last());
        lemma_head_map_contains(s.drop_last(), s[j].ino);
        assert(!head_map_of(s.drop_last()).contains_key(s[j].ino));
        assert(head_map_of(s.drop_last()).insert(s[j].ino, s[j].data@).remove(s[j].ino)
            =~= head_map_of(s.drop_last()));
    } else {
        lemma_head_map_remove(s.drop_last(), j);
        assert(s.remove(j).drop_last() =~= s.drop_last().remove(j));
        assert(s.remove(j).last() == s.last());
        assert(s[j].ino != s.last().ino);
        assert(head_map_of(s.remove(j)) == head_map_of(s.drop_last().remove(j)).insert(
            s.last().ino,
            s.last().data@,
        ));
        assert(head_map_of(s.drop_last()).remove(s[j].ino).insert(s.last().ino, s.last().data@)
            =~= head_map_of(s.drop_last()).insert(s.last().ino, s.last().data@).remove(s[j].ino));
    }
}

/// The position of the first inode in `order` that is not `ino`, or `-1`
/// when every listed inode is `ino` (or the list is empty). This is the
/// victim-selection rule: the oldest entry that is not the inode being read.
pub open spec fn first_other(order: Seq<u64>, ino: u64) -> int
    decreases order.len(),
{
    if order.len() == 0 {
        -1
    } else if order[0] != ino {
        0
    } else {
        let r = first_other(order.subrange(1, order.len() as int), ino);
        if r < 0 {
            -1
        } else {
            r + 1
        }
    }
}

pub proof fn lemma_first_other_at(order: Seq<u64>, ino: u64, j: int)
    requires
        0 <= j < order.len(),
        forall|k: int| 0 <= k < j ==> order[k] == ino,
        order[j] != ino,
    ensures
        first_other(order, ino) == j,
    decreases order.len(),
{
    if j > 0 {
        let tail = order.subrange(1, order.len() as int);
        assert(forall|k: int| 0 <= k < j - 1 ==> tail[k] == ino);
        assert(tail[j - 1] != ino);
        lemma_first_other_at(tail, ino, j - 1);
    }
}

pub proof fn lemma_first_other_none(order: Seq<u64>, ino: u64)
    requires
        forall|k: int| 0 <= k < order.len() ==> order[k] == ino,
    ensures
        first_other(order, ino) == -1,
    decreases order.len(),
{
    if order.len() > 0 {
        let tail = order.subrange(1, order.len() as int);
        assert(forall|k: int| 0 <= k < tail.len() ==> tail[k] == ino);
        lemma_first_other_none(tail, ino);
    }
}

/// What `first_other` finds: a position in range whose inode is not `ino`,
/// with only `ino` before it; or `-1` exactly when every inode is `ino`.
pub proof fn lemma_first_other_props(order: Seq<u64>, ino: u64)
    ensures
        first_other(order, ino) >= 0 ==> {
            &&& first_other(order, ino) < order.len()
            &&& order[first_other(order, ino)] != ino
            &&& forall|k: int| 0 <= k < first_other(order, ino) ==> order[k] == ino
        },
        first_other(order, ino) == -1 <==> forall|k: int|
            0 <= k < order.len() ==> order[k] == ino,
    decreases order.len(),
{
    if order.len() > 0 && order[0] == ino {
        let tail = order.subrange(1, order.len() as int);
        lemma_first_other_props(tail, ino);
        assert(forall|k: int| 1 <= k < order.len() ==> order[k] == tail[k - 1]);
    }
}

impl HeadCache {
    /// Well-formedness carries over from the index to the entries: their
    /// inodes are distinct too.
    pub proof fn lemma_entries_distinct(&self)
        requires
            self.wf(),
        ensures
            forall|a: int, b: int|
                0 <= a < b < self.entries@.len() ==> self.entries@[a].ino != self.entries@[b].ino,
    {
        assert forall|a: int, b: int|
            0 <= a < b < self.entries@.len() implies self.entries@[a].ino
            != self.entries@[b].ino by {
            assert(self.index@[a] == self.entries@[a].ino);
            assert(self.index@[b] == self.entries@[b].ino);
        }
    }

    /// The cached bytes, as a map from inode to byte string.
    pub open spec fn contents(&self) -> Map<u64, Seq<u8>> {
        head_map_of(self.entries@)
    }

    /// The cached inodes, oldest first.
    pub open spec fn order(&self) -> Seq<u64> {
        self.index@
    }

    /// Well-formed: the index lists exactly the entries' inodes, in the same
    /// positions, without duplicates.
    pub open spec fn wf(&self) -> bool {
        &&& self.index@.len() == self.entries@.len()
        &&& forall|i: int| 0 <= i < self.index@.len() ==> self.index@[i] == self.entries@[i].ino
        &&& forall|a: int, b: int|
            0 <= a < b < self.index@.len() ==> self.index@[a] != self.index@[b]
    }

    /// An empty cache.
    pub fn new() -> (r: HeadCache)
        ensures
            r.wf(),
            r.contents() == Map::<u64, Seq<u8>>::empty(),
            r.order() == Seq::<u64>::empty(),
    {
        HeadCache { entries: Vec::new(), index: Vec::new() }
    }

    /// How many inodes are cached.
    pub fn count(&self) -> (r: usize)
        requires
            self.wf(),
        ensures
            r == self.order().len(),
    {
        self.index.len()
    }

    /// The cached bytes for `ino`, if any.
    pub fn get(&self, ino: u64) -> (r: Option<&Vec<u8>>)
        requires
            self.wf(),
        ensures
            match r {
                Some(d) => self.contents().contains_key(ino) && d@ == self.contents()[ino],
                None => !self.contents().contains_key(ino),
            },
    {
        let n = self.entries.len();
        let mut i: usize = 0;
        while i < n
            invariant
                i <= n,
                n == self.entries@.len(),
                self.wf(),
                forall|k: int| 0 <= k < i ==> self.entries@[k].ino != ino,
            decreases n - i,
        {
            if self.entries[i].ino == ino {
                proof {
                    self.lemma_entries_distinct();
                    lemma_head_map_value(self.entries@, i as int);
                }
                return Some(&self.entries[i].data);
            }
            i = i + 1;
        }
        proof {
            lemma_head_map_contains(self.entries@, ino);
        }
        None
    }

    /// Whether `ino` is cached.
    pub fn contains(&self, ino: u64) -> (r: bool)
        requires
            self.wf(),
        ensures
            r == self.contents().contains_key(ino),
    {
        match self.get(ino) {
            Some(_) => true,
            None => false,
        }
    }

    /// Caches `data` under `ino`, which must not be cached yet; the inode
    /// joins the index as the newest entry.
    pub fn insert(&mut self, ino: u64, data: Vec<u8>)
        requires
            old(self).wf(),
            !old(self).contents().contains_key(ino),
        ensures
            final(self).wf(),
            final(self).contents() == old(self).contents().insert(ino, data@),
            final(self).order() == old(self).order().push(ino),
    {
        proof {
            lemma_head_map_contains(self.entries@, ino);
        }
        self.entries.push(HeadEntry { ino, data });
        self.index.push(ino);
        proof {
            assert(self.entries@.drop_last() =~= old(self).entries@);
        }
    }

    /// The eviction check, run once per read: when more inodes are cached
    /// than `max` allows, the oldest entry whose inode is not `ino` leaves
    /// both structures. The inode being read is never the victim; when it is
    /// the only entry, nothing is evicted.
    pub fn evict_for(&mut self, ino: u64, max: u64)
        requires
            old(self).wf(),
        ensures
            final(self).wf(),
            ({
                let j = first_other(old(self).order(), ino);
                if old(self).order().len() > max && j >= 0 {
                    final(self).order() == old(self).order().remove(j) && final(self).contents()
                        == old(self).contents().remove(old(self).order()[j])
                } else {
                    final(self).order() == old(self).order() && final(self).contents() == old(
                        self,
                    ).contents()
                }
            }),
            final(self).contents().contains_key(ino) == old(self).contents().contains_key(ino),
            final(self).contents().contains_key(ino) ==> final(self).contents()[ino] == old(
                self,
            ).contents()[ino],
            final(self).order().len() >= old(self).order().len() - 1,
    {
        let n = self.index.len();
        if n as u64 <= max {
            return ;
        }
        let mut j: usize = 0;
        while j < n && self.index[j] == ino
            invariant
                j <= n,
                n == self.index@.len(),
                self.wf(),
                forall|k: int| 0 <= k < j ==> self.index@[k] == ino,
            decreases n - j,
        {
            j = j + 1;
        }
        if j == n {
            proof {
                lemma_first_other_none(self.index@, ino);
            }
            return ;
        }
        let victim = self.index[j];
        proof {
            self.lemma_entries_distinct();
            lemma_first_other_at(self.index@, ino, j as int);
            lemma_head_map_remove(self.entries@, j as int);
            lemma_head_map_contains(self.entries@, ino);
        }
        self.index.remove(j);
        self.entries.remove(j);
        proof {
            assert(forall|a: int, b: int|
                0 <= a < b < self.index@.len() ==> self.index@[a] != self.index@[b]);
        }
    }
}

/// The two head-cache structures agree: the data map's key set is exactly
/// the index, and the counts match.
pub proof fn lemma_head_structures_agree(c: &HeadCache)
    requires
        c.wf(),
    ensures
        c.contents().dom() =~= c.order().to_set(),
        c.contents().dom().len() == c.order().len(),
{
    assert forall|k: u64| c.contents().dom().contains(k) implies c.order().to_set().contains(
        k,
    ) by {
        lemma_head_map_contains(c.entries@, k);
        let i = choose|i: int| 0 <= i < c.entries@.len() && c.entries@[i].ino == k;
        assert(c.order()[i] == k);
    }
    assert forall|k: u64| c.order().to_set().contains(k) implies c.contents().dom().contains(
        k,
    ) by {
        let i = choose|i: int| 0 <= i < c.order().len() && c.order()[i] == k;
        lemma_head_map_contains(c.entries@, k);
        assert(c.entries@[i].ino == k);
    }
    c.order().unique_seq_to_set();
}

} // verus!
