//! The asset store: a read-only mapping from relative file paths to byte
//! contents, populated once at startup and never mutated afterwards.

use vstd::prelude::*;

verus! {

/// A path under which an asset may be registered: non-empty, relative
/// (no leading slash) and naming a file (no trailing slash).
pub open spec fn valid_asset_path(p: Seq<char>) -> bool {
    &&& p.len() > 0
    &&& p[0] != '/'
    &&& p[p.len() - 1] != '/'
}

/// The mapping that a sequence of (path, contents) entries denotes;
/// later entries would win, but a well-formed store has distinct keys.
pub open spec fn entries_map(s: Seq<(String, Vec<u8>)>) -> Map<Seq<char>, Seq<u8>>
    decreases s.len(),
{
    if s.len() == 0 {
        Map::empty()
    } else {
        entries_map(s.drop_last()).insert(s.last().0@, s.last().1@)
    }
}

/// A key is in the denoted map exactly when some entry carries it.
proof fn lemma_entries_map_contains(s: Seq<(String, Vec<u8>)>, k: Seq<char>)
    ensures
        entries_map(s).contains_key(k) <==> exists|j: int| 0 <= j < s.len() && s[j].0@ == k,
    decreases s.len(),
{
    if s.len() > 0 {
        lemma_entries_map_contains(s.drop_last(), k);
        if s.last().0@ == k {
            assert(s[s.len() - 1].0@ == k);
        } else if entries_map(s).contains_key(k) {
            let j = choose|j: int| 0 <= j < s.len() - 1 && s.drop_last()[j].0@ == k;
            assert(s[j].0@ == k);
        } else if exists|j: int| 0 <= j < s.len() && s[j].0@ == k {
            let j = choose|j: int| 0 <= j < s.len() && s[j].0@ == k;
            assert(s.drop_last()[j].0@ == k);
        }
    }
}

/// With pairwise-distinct keys, the entry that carries a key gives its value.
proof fn lemma_entries_map_value(s: Seq<(String, Vec<u8>)>, j: int)
    requires
        0 <= j < s.len(),
        forall|a: int, b: int| 0 <= a < b < s.len() ==> s[a].0@ != s[b].0@,
    ensures
        entries_map(s).contains_key(s[j].0@),
        entries_map(s)[s[j].0@] == s[j].1@,
    decreases s.len(),
{
    lemma_entries_map_contains(s, s[j].0@);
    if j < s.len() - 1 {
        assert(s[j].0@ != s.last().0@);
        lemma_entries_map_value(s.drop_last(), j);
        assert(s.drop_last()[j] == s[j]);
    }
}

/// The in-memory asset store. Its view is the mapping from each
/// registered path to the bytes stored under it.
pub struct AssetStore {
    assets: Vec<(String, Vec<u8>)>,
}

impl View for AssetStore {
    type V = Map<Seq<char>, Seq<u8>>;

    closed spec fn view(&self) -> Map<Seq<char>, Seq<u8>> {
        entries_map(self.assets@)
    }
}

impl AssetStore {
    /// Registered paths are pairwise distinct and each is a valid asset path.
    pub closed spec fn wf(&self) -> bool {
        &&& forall|a: int, b: int|
            0 <= a < b < self.assets@.len() ==> self.assets@[a].0@ != self.assets@[b].0@
        &&& forall|j: int|
            0 <= j < self.assets@.len() ==> valid_asset_path(#[trigger] self.assets@[j].0@)
    }

    /// Every key of the store's view is a valid asset path.
    pub proof fn lemma_wf_keys_valid(&self, k: Seq<char>)
        requires
            self.wf(),
            self@.contains_key(k),
        ensures
            valid_asset_path(k),
    {
        lemma_entries_map_contains(self.assets@, k);
        let j = choose|j: int| 0 <= j < self.assets@.len() && self.assets@[j].0@ == k;
        assert(valid_asset_path(self.assets@[j].0@));
    }

    /// An empty store.
    pub fn new() -> (r: AssetStore)
        ensures
            r.wf(),
            r@ == Map::<Seq<char>, Seq<u8>>::empty(),
    {
        AssetStore { assets: Vec::new() }
    }

    /// Register one asset. Population happens once, at startup, before
    /// any lookup; afterwards the store is only ever read.
    pub fn insert(&mut self, path: String, contents: Vec<u8>)
        requires
            old(self).wf(),
            valid_asset_path(path@),
            !old(self)@.contains_key(path@),
        ensures
            final(self).wf(),
            final(self)@ == old(self)@.insert(path@, contents@),
    {
        proof {
            lemma_entries_map_contains(self.assets@, path@);
        }
        let ghost s0 = self.assets@;
        self.assets.push((path, contents));
        proof {
            assert(self.assets@.drop_last() =~= s0);
        }
    }

    /// Look a path up. Absence is a normal outcome, not a fault.
    pub fn get<'a>(&'a self, path: &String) -> (r: Option<&'a Vec<u8>>)
        requires
            self.wf(),
        ensures
            match r {
                Some(contents) => self@.contains_key(path@) && contents@ == self@[path@],
                None => !self@.contains_key(path@),
            },
    {
        proof {
            lemma_entries_map_contains(self.assets@, path@);
        }
        let n = self.assets.len();
        let mut i: usize = 0;
        while i < n
            invariant
                self.wf(),
                n == self.assets@.len(),
                i <= n,
                forall|j: int| 0 <= j < i ==> self.assets@[j].0@ != path@,
            decreases n - i,
        {
            if self.assets[i].0 == *path {
                proof {
                    lemma_entries_map_value(self.assets@, i as int);
                }
                return Some(&self.assets[i].1);
            }
            i += 1;
        }
        None
    }
}

} // verus!
