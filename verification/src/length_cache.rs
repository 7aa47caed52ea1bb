//! The content-length cache: an association from track id to the
//! authoritative length discovered via HTTP HEAD. It is small (one integer
//! per track), never evicts, and is never invalidated while mounted.
use vstd::prelude::*;

verus! {

pub struct LenEntry {
    pub id: String,
    pub len: u64,
}

/// Cache of authoritative content lengths, keyed by track id.
pub struct LengthCache {
    pub entries: Vec<LenEntry>,
}

/// The map an entry list denotes.
pub open spec fn len_map_of(s: Seq<LenEntry>) -> Map<Seq<char>, u64>
    decreases s.len(),
{
    if s.len() == 0 {
        Map::empty()
    } else {
        len_map_of(s.drop_last()).insert(s.last().id@, s.last().len)
    }
}

pub proof fn lemma_len_map_contains(s: Seq<LenEntry>, k: Seq<char>)
    ensures
        len_map_of(s).contains_key(k) <==> exists|i: int| 0 <= i < s.len() && s[i].id@ == k,
    decreases s.len(),
{
    if s.len() > 0 {
        lemma_len_map_contains(s.drop_last(), k);
        if s.last().id@ == k {
            assert(s[s.len() - 1].id@ == k);
        } else if len_map_of(s).contains_key(k) {
            let i = choose|i: int| 0 <= i < s.drop_last().len() && s.drop_last()[i].id@ == k;
            assert(s[i].id@ == k);
        } else {
            assert(forall|i: int|
                0 <= i < s.drop_last().len() ==> s.drop_last()[i].id@ == s[i].id@);
        }
    }
}

pub proof fn lemma_len_map_value(s: Seq<LenEntry>, i: int)
    requires
        0 <= i < s.len(),
        forall|a: int, b: int| 0 <= a < b < s.len() ==> s[a].id@ != s[b].id@,
    ensures
        len_map_of(s).contains_key(s[i].id@),
        len_map_of(s)[s[i].id@] == s[i].len,
    decreases s.len(),
{
    lemma_len_map_contains(s, s[i].id@);
    if i < s.len() - 1 {
        assert(s[i].id@ != s.last().id@);
        lemma_len_map_value(s.drop_last(), i);
    }
}

impl LengthCache {
    /// The cache as a map from track id to length.
    pub open spec fn view(&self) -> Map<Seq<char>, u64> {
        len_map_of(self.entries@)
    }

    /// Well-formed: ids are distinct.
    pub open spec fn wf(&self) -> bool {
        forall|a: int, b: int|
            0 <= a < b < self.entries@.len() ==> self.entries@[a].id@ != self.entries@[b].id@
    }

    /// An empty cache.
    pub fn new() -> (r: LengthCache)
        ensures
            r.wf(),
            r@ == Map::<Seq<char>, u64>::empty(),
    {
        LengthCache { entries: Vec::new() }
    }

    /// Looks a track id up.
    pub fn get(&self, id: &String) -> (r: Option<u64>)
        requires
            self.wf(),
        ensures
            match r {
                Some(v) => self@.contains_key(id@) && self@[id@] == v,
                None => !self@.contains_key(id@),
            },
    {
        let n = self.entries.len();
        let mut i: usize = 0;
        while i < n
            invariant
                i <= n,
                n == self.entries@.len(),
                self.wf(),
                forall|k: int| 0 <= k < i ==> self.entries@[k].id@ != id@,
            decreases n - i,
        {
            if self.entries[i].id == *id {
                proof {
                    lemma_len_map_value(self.entries@, i as int);
                }
                return Some(self.entries[i].len);
            }
            i = i + 1;
        }
        proof {
            lemma_len_map_contains(self.entries@, id@);
        }
        None
    }

    /// Records a freshly discovered length for an id that has no entry yet.
    pub fn insert_new(&mut self, id: String, len: u64)
        requires
            old(self).wf(),
            !old(self)@.contains_key(id@),
        ensures
            final(self).wf(),
            final(self)@ == old(self)@.insert(id@, len),
    {
        proof {
            lemma_len_map_contains(self.entries@, id@);
        }
        self.entries.push(LenEntry { id, len });
        proof {
            assert(self.entries@.drop_last() =~= old(self).entries@);
        }
    }
}

} // verus!
