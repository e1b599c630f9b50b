//! Scanning: feeding the visible files of a tree through the fingerprint
//! store.
//!
//! A scan walks the visible files in order. A file counts as changed when it
//! is absent from the store or its freshly computed checksum differs from the
//! stored one; either way the fresh checksum is stored. The scan exits
//! eagerly on the first change — it reports that at least one change exists,
//! not the whole change set — so the store keeps the old checksums of the
//! files after the exit point. A baseline pass stores every visible file's
//! checksum and reports nothing.

use vstd::prelude::*;

verus! {

use crate::checksum::adler32_of;
use crate::checksum::checksum;
use crate::store::State;
use crate::tree::DirNode;
use crate::tree::TreeNode;
use crate::tree::FileNode;
use crate::tree::visible_files;
use crate::tree::visible_files_in;
use crate::tree::is_excluded_name;
use crate::tree::lemma_visible_in_append;
use crate::tree::lemma_visible_in_take_step;

/// Whether this file counts as changed against the store `m`: it is new, or
/// its contents' checksum differs from the stored one.
pub open spec fn file_changed(f: FileNode, m: Map<Seq<char>, u32>) -> bool {
    !(m.contains_key(f.path@) && m[f.path@] == adler32_of(f.data@))
}

/// Whether scanning `files` in order against store `m` reports a change.
pub open spec fn scan_changed(files: Seq<FileNode>, m: Map<Seq<char>, u32>) -> bool
    decreases files.len(),
{
    if files.len() == 0 {
        false
    } else {
        file_changed(files[0], m) || scan_changed(
            files.drop_first(),
            m.insert(files[0].path@, adler32_of(files[0].data@)),
        )
    }
}

/// The store after scanning `files` in order against `m`: each file's fresh
/// checksum is stored as it is visited, and the scan stops at (and including)
/// the first changed file.
pub open spec fn scan_store(files: Seq<FileNode>, m: Map<Seq<char>, u32>) -> Map<Seq<char>, u32>
    decreases files.len(),
{
    if files.len() == 0 {
        m
    } else {
        let m2 = m.insert(files[0].path@, adler32_of(files[0].data@));
        if file_changed(files[0], m) {
            m2
        } else {
            scan_store(files.drop_first(), m2)
        }
    }
}

/// The store after a baseline pass over `files`: every file's checksum is
/// stored, nothing is reported.
pub open spec fn baseline_store(files: Seq<FileNode>, m: Map<Seq<char>, u32>) -> Map<
    Seq<char>,
    u32,
>
    decreases files.len(),
{
    if files.len() == 0 {
        m
    } else {
        baseline_store(files.drop_first(), m.insert(files[0].path@, adler32_of(files[0].data@)))
    }
}

/// Scanning a concatenation: the second half is scanned only if the first
/// half saw no change, and then against the first half's store.
pub proof fn lemma_scan_append(a: Seq<FileNode>, b: Seq<FileNode>, m: Map<Seq<char>, u32>)
    ensures
        scan_changed(a + b, m) == (scan_changed(a, m) || scan_changed(b, scan_store(a, m))),
        scan_store(a + b, m) == if scan_changed(a, m) {
            scan_store(a, m)
        } else {
            scan_store(b, scan_store(a, m))
        },
    decreases a.len(),
{
    if a.len() == 0 {
        assert(a + b =~= b);
    } else {
        assert((a + b)[0] == a[0]);
        assert((a + b).drop_first() =~= a.drop_first() + b);
        lemma_scan_append(a.drop_first(), b, m.insert(a[0].path@, adler32_of(a[0].data@)));
    }
}

/// A baseline pass over a concatenation is the two passes in order.
pub proof fn lemma_baseline_append(a: Seq<FileNode>, b: Seq<FileNode>, m: Map<Seq<char>, u32>)
    ensures
        baseline_store(a + b, m) == baseline_store(b, baseline_store(a, m)),
    decreases a.len(),
{
    if a.len() == 0 {
        assert(a + b =~= b);
    } else {
        assert((a + b)[0] == a[0]);
        assert((a + b).drop_first() =~= a.drop_first() + b);
        lemma_baseline_append(a.drop_first(), b, m.insert(a[0].path@, adler32_of(a[0].data@)));
    }
}

/// Change-detection liveness: if any visible file counts as changed against
/// the store — it is new, or its checksum differs from the stored one — and
/// no earlier visible file shares its path, then the scan reports a change.
/// Combined with the contract of `ServerCore::poll`, the dirty flag is true
/// as soon as the poll after the change completes.
pub proof fn lemma_change_detected(files: Seq<FileNode>, m: Map<Seq<char>, u32>, i: int)
    requires
        0 <= i < files.len(),
        forall|j: int| 0 <= j < i ==> files[j].path@ != files[i].path@,
        file_changed(files[i], m),
    ensures
        scan_changed(files, m),
    decreases i,
{
    if i > 0 && !file_changed(files[0], m) {
        let m2 = m.insert(files[0].path@, adler32_of(files[0].data@));
        let rest = files.drop_first();
        assert(files[0].path@ != files[i].path@);
        assert(file_changed(rest[i - 1], m2));
        assert(forall|j: int| 0 <= j < i - 1 ==> #[trigger] rest[j].path@ != rest[i - 1].path@);
        lemma_change_detected(rest, m2, i - 1);
    }
}

/// A store entry at a path no scanned file has survives a baseline pass.
proof fn lemma_baseline_preserves(files: Seq<FileNode>, m: Map<Seq<char>, u32>, p: Seq<char>)
    requires
        forall|j: int| 0 <= j < files.len() ==> files[j].path@ != p,
        m.contains_key(p),
    ensures
        baseline_store(files, m).contains_key(p),
        baseline_store(files, m)[p] == m[p],
    decreases files.len(),
{
    if files.len() > 0 {
        lemma_baseline_preserves(
            files.drop_first(),
            m.insert(files[0].path@, adler32_of(files[0].data@)),
            p,
        );
    }
}

/// After a baseline pass, the store holds each file's checksum, provided no
/// later file shares its path.
proof fn lemma_baseline_value(files: Seq<FileNode>, m: Map<Seq<char>, u32>, i: int)
    requires
        0 <= i < files.len(),
        forall|j: int| i < j < files.len() ==> files[j].path@ != files[i].path@,
    ensures
        baseline_store(files, m).contains_key(files[i].path@),
        baseline_store(files, m)[files[i].path@] == adler32_of(files[i].data@),
    decreases files.len(),
{
    let m2 = m.insert(files[0].path@, adler32_of(files[0].data@));
    let rest = files.drop_first();
    if i == 0 {
        assert(forall|j: int| 0 <= j < rest.len() ==> #[trigger] rest[j].path@ != files[0].path@);
        lemma_baseline_preserves(rest, m2, files[0].path@);
    } else {
        assert(forall|j: int| i - 1 < j < rest.len() ==> #[trigger] rest[j].path@ != rest[i - 1].path@);
        lemma_baseline_value(rest, m2, i - 1);
    }
}

/// The very first scan after a baseline pass sees no change: with
/// pairwise-distinct paths, scanning the same files against the store the
/// baseline produced reports nothing.
pub proof fn lemma_scan_after_baseline(files: Seq<FileNode>, m: Map<Seq<char>, u32>)
    requires
        forall|i: int, j: int| 0 <= i < j < files.len() ==> files[i].path@ != files[j].path@,
    ensures
        !scan_changed(files, baseline_store(files, m)),
    decreases files.len(),
{
    if files.len() > 0 {
        let m0 = baseline_store(files, m);
        let sum0 = adler32_of(files[0].data@);
        let m1 = m.insert(files[0].path@, sum0);
        let rest = files.drop_first();
        assert(forall|j: int| 0 < j < files.len() ==> #[trigger] files[j].path@ != files[0].path@);
        lemma_baseline_value(files, m, 0);
        assert(!file_changed(files[0], m0));
        assert(m0 == baseline_store(rest, m1));
        assert(m0.insert(files[0].path@, sum0) =~= m0);
        assert(forall|i: int, j: int|
            0 <= i < j < rest.len() ==> #[trigger] rest[i].path@ != #[trigger] rest[j].path@);
        lemma_scan_after_baseline(rest, m1);
        assert(!scan_changed(rest, m0.insert(files[0].path@, sum0)));
    }
}

/// Scans the entries of a directory against the store, in walk order,
/// excluding build-output and version-control subtrees. Reports whether at
/// least one visible file changed since it was last recorded; exits eagerly
/// on the first change. Every visited file's fresh checksum is recorded.
pub fn dir_has_changes(dir: &DirNode, state: &mut State) -> (changed: bool)
    requires
        old(state).wf(),
    ensures
        final(state).wf(),
        changed == scan_changed(visible_files_in(dir.entries@), old(state)@),
        final(state)@ == scan_store(visible_files_in(dir.entries@), old(state)@),
    decreases dir.entries@,
{
    let ghost m0 = old(state)@;
    let ghost entries = dir.entries@;
    let mut i: usize = 0;
    while i < dir.entries.len()
        invariant
            old(state).wf(),
            state.wf(),
            i <= entries.len(),
            entries == dir.entries@,
            !scan_changed(visible_files_in(entries.take(i as int)), m0),
            state@ == scan_store(visible_files_in(entries.take(i as int)), m0),
            m0 == old(state)@,
        decreases entries.len() - i,
    {
        let ghost prefix = visible_files_in(entries.take(i as int));
        proof {
            lemma_visible_in_take_step(entries, i as int);
        }
        match &dir.entries[i] {
            TreeNode::File(f) => {
                proof {
                    assert(entries[i as int] == TreeNode::File(*f));
                }
                let ghost m1 = state@;
                let sum = checksum(f.data.as_slice());
                let file_is_changed = state.record(&f.path, sum);
                proof {
                    let here = seq![*f];
                    assert(visible_files(entries[i as int]) =~= here);
                    assert(here.drop_first() =~= Seq::<FileNode>::empty());
                    assert(here[0] == *f);
                    reveal_with_fuel(scan_changed, 2);
                    reveal_with_fuel(scan_store, 2);
                    assert(file_is_changed == file_changed(*f, m1));
                    assert(scan_changed(here, m1) == file_is_changed);
                    assert(scan_store(here, m1) == m1.insert(f.path@, adler32_of(f.data@)));
                    lemma_scan_append(prefix, here, m0);
                }
                if file_is_changed {
                    proof {
                        let seen = visible_files_in(entries.take(i + 1));
                        let rest = visible_files_in(entries.skip(i + 1));
                        assert(entries =~= entries.take(i + 1) + entries.skip(i + 1));
                        lemma_visible_in_append(entries.take(i + 1), entries.skip(i + 1));
                        lemma_scan_append(seen, rest, m0);
                    }
                    return true;
                }
            },
            TreeNode::Dir(d) => {
                if is_excluded_name(&d.name) {
                    proof {
                        assert(visible_files(entries[i as int]) =~= Seq::<FileNode>::empty());
                        assert(prefix + Seq::<FileNode>::empty() =~= prefix);
                    }
                } else {
                    let ghost sub = visible_files(entries[i as int]);
                    proof {
                        assert(entries[i as int] == TreeNode::Dir(*d));
                        assert(sub == visible_files_in(d.entries@));
                    }
                    let sub_changed = dir_has_changes(d, state);
                    proof {
                        lemma_scan_append(prefix, sub, m0);
                    }
                    if sub_changed {
                        proof {
                            let seen = visible_files_in(entries.take(i + 1));
                            let rest = visible_files_in(entries.skip(i + 1));
                            assert(entries =~= entries.take(i + 1) + entries.skip(i + 1));
                            lemma_visible_in_append(entries.take(i + 1), entries.skip(i + 1));
                            lemma_scan_append(seen, rest, m0);
                        }
                        return true;
                    }
                }
            },
        }
        i = i + 1;
    }
    proof {
        assert(entries.take(entries.len() as int) =~= entries);
    }
    false
}

/// The baseline pass: records the checksum of every visible file under the
/// directory's entries, excluding build-output and version-control subtrees,
/// and reports nothing.
pub fn initial_state(dir: &DirNode, state: &mut State)
    requires
        old(state).wf(),
    ensures
        final(state).wf(),
        final(state)@ == baseline_store(visible_files_in(dir.entries@), old(state)@),
    decreases dir.entries@,
{
    let ghost m0 = old(state)@;
    let ghost entries = dir.entries@;
    let mut i: usize = 0;
    while i < dir.entries.len()
        invariant
            old(state).wf(),
            state.wf(),
            i <= entries.len(),
            entries == dir.entries@,
            state@ == baseline_store(visible_files_in(entries.take(i as int)), m0),
            m0 == old(state)@,
        decreases entries.len() - i,
    {
        let ghost prefix = visible_files_in(entries.take(i as int));
        proof {
            lemma_visible_in_take_step(entries, i as int);
        }
        match &dir.entries[i] {
            TreeNode::File(f) => {
                proof {
                    assert(entries[i as int] == TreeNode::File(*f));
                }
                let ghost m1 = state@;
                let sum = checksum(f.data.as_slice());
                let _ = state.record(&f.path, sum);
                proof {
                    let here = seq![*f];
                    assert(visible_files(entries[i as int]) =~= here);
                    assert(here.drop_first() =~= Seq::<FileNode>::empty());
                    assert(here[0] == *f);
                    reveal_with_fuel(baseline_store, 2);
                    assert(state@ == baseline_store(here, m1));
                    lemma_baseline_append(prefix, here, m0);
                }
            },
            TreeNode::Dir(d) => {
                if is_excluded_name(&d.name) {
                    proof {
                        assert(visible_files(entries[i as int]) =~= Seq::<FileNode>::empty());
                        assert(prefix + Seq::<FileNode>::empty() =~= prefix);
                    }
                } else {
                    let ghost sub = visible_files(entries[i as int]);
                    proof {
                        assert(entries[i as int] == TreeNode::Dir(*d));
                        assert(sub == visible_files_in(d.entries@));
                    }
                    initial_state(d, state);
                    proof {
                        lemma_baseline_append(prefix, sub, m0);
                    }
                }
            },
        }
        i = i + 1;
    }
    proof {
        assert(entries.take(entries.len() as int) =~= entries);
    }
}

} // verus!
