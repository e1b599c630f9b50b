//! The fingerprint store: a map from file path to the checksum the file had
//! when it was last scanned.
//!
//! The store is a vector of records whose paths are pairwise distinct; its
//! mathematical content is the map `Map<Seq<char>, u32>` it denotes.

use vstd::prelude::*;

verus! {

/// One fingerprinted file: a path together with the checksum of the file's
/// full contents at the time it was last scanned.
pub struct FileRecord {
    pub path: String,
    pub checksum: u32,
}

/// The paths of the records are pairwise distinct.
pub open spec fn paths_distinct(s: Seq<FileRecord>) -> bool {
    forall|i: int, j: int| 0 <= i < j < s.len() ==> s[i].path@ != s[j].path@
}

/// The map a sequence of records denotes; a later record overrides an
/// earlier one with the same path.
pub open spec fn map_of(s: Seq<FileRecord>) -> Map<Seq<char>, u32>
    decreases s.len(),
{
    if s.len() == 0 {
        Map::empty()
    } else {
        map_of(s.drop_last()).insert(s.last().path@, s.last().checksum)
    }
}

/// The fingerprint store. After a completed scan it holds an entry for every
/// regular file reachable from the watched root outside excluded subtrees.
pub struct State {
    pub hashes: Vec<FileRecord>,
}

impl View for State {
    type V = Map<Seq<char>, u32>;

    open spec fn view(&self) -> Map<Seq<char>, u32> {
        map_of(self.hashes@)
    }
}

/// A key absent from every record is absent from the denoted map.
proof fn lemma_map_of_absent(s: Seq<FileRecord>, k: Seq<char>)
    requires
        forall|i: int| 0 <= i < s.len() ==> s[i].path@ != k,
    ensures
        !map_of(s).contains_key(k),
    decreases s.len(),
{
    if s.len() > 0 {
        lemma_map_of_absent(s.drop_last(), k);
    }
}

/// With distinct paths, the denoted map sends each record's path to that
/// record's checksum.
proof fn lemma_map_of_index(s: Seq<FileRecord>, i: int)
    requires
        paths_distinct(s),
        0 <= i < s.len(),
    ensures
        map_of(s).contains_key(s[i].path@),
        map_of(s)[s[i].path@] == s[i].checksum,
    decreases s.len(),
{
    if i < s.len() - 1 {
        assert(paths_distinct(s.drop_last()));
        lemma_map_of_index(s.drop_last(), i);
        assert(s.drop_last()[i] == s[i]);
        assert(s.last().path@ != s[i].path@);
    }
}

/// Replacing the record at a path's index denotes the same map as inserting
/// the new checksum at that path.
proof fn lemma_map_of_update(s: Seq<FileRecord>, i: int, r: FileRecord)
    requires
        paths_distinct(s),
        0 <= i < s.len(),
        r.path@ == s[i].path@,
    ensures
        paths_distinct(s.update(i, r)),
        map_of(s.update(i, r)) == map_of(s).insert(r.path@, r.checksum),
    decreases s.len(),
{
    let t = s.update(i, r);
    assert(paths_distinct(t));
    if i == s.len() - 1 {
        assert(t.drop_last() =~= s.drop_last());
        assert(t.last() == r);
        assert(map_of(t) == map_of(s.drop_last()).insert(r.path@, r.checksum));
        assert(map_of(s.drop_last()).insert(s[i].path@, s[i].checksum).insert(r.path@, r.checksum)
            =~= map_of(s.drop_last()).insert(r.path@, r.checksum));
    } else {
        assert(paths_distinct(s.drop_last()));
        assert(s.drop_last()[i] == s[i]);
        lemma_map_of_update(s.drop_last(), i, r);
        assert(t.drop_last() =~= s.drop_last().update(i, r));
        assert(t.last() == s.last());
        assert(s.last().path@ != r.path@);
        assert(map_of(s.drop_last()).insert(r.path@, r.checksum).insert(
            s.last().path@,
            s.last().checksum,
        ) =~= map_of(s.drop_last()).insert(s.last().path@, s.last().checksum).insert(
            r.path@,
            r.checksum,
        ));
    }
}

impl State {
    /// The store's structural invariant: no path occurs twice.
    pub open spec fn wf(self) -> bool {
        paths_distinct(self.hashes@)
    }

    /// An empty store.
    pub fn new() -> (r: State)
        ensures
            r.wf(),
            r@ == Map::<Seq<char>, u32>::empty(),
    {
        State { hashes: Vec::new() }
    }

    /// The index of the record for `path`, if the store holds one.
    fn find(&self, path: &String) -> (r: Option<usize>)
        ensures
            match r {
                Some(i) => i < self.hashes@.len() && self.hashes@[i as int].path@ == path@,
                None => forall|j: int| 0 <= j < self.hashes@.len() ==> self.hashes@[j].path@ != path@,
            },
    {
        let mut i: usize = 0;
        while i < self.hashes.len()
            invariant
                i <= self.hashes@.len(),
                forall|j: int| 0 <= j < i ==> self.hashes@[j].path@ != path@,
            decreases self.hashes@.len() - i,
        {
            if self.hashes[i].path == *path {
                return Some(i);
            }
            i = i + 1;
        }
        None
    }

    /// The stored checksum for `path`, if any.
    pub fn lookup(&self, path: &String) -> (r: Option<u32>)
        requires
            self.wf(),
        ensures
            r == if self@.contains_key(path@) {
                Some(self@[path@])
            } else {
                None::<u32>
            },
    {
        match self.find(path) {
            Some(i) => {
                proof {
                    lemma_map_of_index(self.hashes@, i as int);
                }
                Some(self.hashes[i].checksum)
            },
            None => {
                proof {
                    lemma_map_of_absent(self.hashes@, path@);
                }
                None
            },
        }
    }

    /// Stores `checksum` as the fingerprint of `path`, replacing any previous
    /// entry, and reports whether this differs from what was stored before:
    /// true exactly when the path was absent or its stored checksum differed.
    pub fn record(&mut self, path: &String, checksum: u32) -> (changed: bool)
        requires
            old(self).wf(),
        ensures
            final(self).wf(),
            final(self)@ == old(self)@.insert(path@, checksum),
            changed == !(old(self)@.contains_key(path@) && old(self)@[path@] == checksum),
    {
        match self.find(path) {
            Some(i) => {
                proof {
                    lemma_map_of_index(self.hashes@, i as int);
                }
                let prev = self.hashes[i].checksum;
                let r = FileRecord { path: path.clone(), checksum };
                proof {
                    lemma_map_of_update(self.hashes@, i as int, r);
                }
                self.hashes[i] = r;
                prev != checksum
            },
            None => {
                proof {
                    lemma_map_of_absent(self.hashes@, path@);
                }
                self.hashes.push(FileRecord { path: path.clone(), checksum });
                proof {
                    assert(self.hashes@.drop_last() =~= old(self).hashes@);
                }
                true
            },
        }
    }
}

} // verus!
