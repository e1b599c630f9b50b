//! A value-level picture of the watched directory tree.
//!
//! The scanner's callers walk the real file system and hand the library a
//! `DirNode`: each regular file appears with its full path and its contents,
//! each subdirectory with its final path segment. Which files a scan sees is
//! defined here: subtrees named for build output (`target`) or version
//! control (`.git`) are invisible, everything else is visible in walk order.

use vstd::prelude::*;

verus! {

/// One regular file: its full path and its contents.
pub struct FileNode {
    pub path: String,
    pub data: Vec<u8>,
}

/// One directory: its final path segment and its entries, in walk order.
pub struct DirNode {
    pub name: String,
    pub entries: Vec<TreeNode>,
}

/// One entry of a directory.
pub enum TreeNode {
    File(FileNode),
    Dir(DirNode),
}

/// Whether a subtree with this final path segment is excluded from scanning.
pub open spec fn spec_excluded(name: Seq<char>) -> bool {
    name == "target"@ || name == ".git"@
}

/// Decides whether a subdirectory name belongs to the exclusion set: the
/// build-output directory and the version-control directory.
pub fn is_excluded_name(name: &String) -> (r: bool)
    ensures
        r == spec_excluded(name@),
{
    *name == "target".to_owned() || *name == ".git".to_owned()
}

/// The files a scan of this node sees, in walk order. Files under an
/// excluded directory are invisible.
pub open spec fn visible_files(t: TreeNode) -> Seq<FileNode>
    decreases t,
{
    match t {
        TreeNode::File(f) => seq![f],
        TreeNode::Dir(d) => {
            if spec_excluded(d.name@) {
                Seq::empty()
            } else {
                visible_files_in(d.entries@)
            }
        },
    }
}

/// The files a scan of these entries sees, in walk order.
pub open spec fn visible_files_in(entries: Seq<TreeNode>) -> Seq<FileNode>
    decreases entries,
{
    if entries.len() == 0 {
        Seq::empty()
    } else {
        visible_files(entries[0]) + visible_files_in(entries.drop_first())
    }
}

/// A single entry's visible files are that entry's visible files.
pub proof fn lemma_visible_in_singleton(t: TreeNode)
    ensures
        visible_files_in(seq![t]) == visible_files(t),
{
    let s = seq![t];
    assert(s[0] == t);
    assert(s.drop_first() =~= Seq::<TreeNode>::empty());
    assert(visible_files_in(s.drop_first()) =~= Seq::<FileNode>::empty());
    assert(visible_files(t) + Seq::<FileNode>::empty() =~= visible_files(t));
}

/// Visible files distribute over concatenation of entry sequences.
pub proof fn lemma_visible_in_append(a: Seq<TreeNode>, b: Seq<TreeNode>)
    ensures
        visible_files_in(a + b) == visible_files_in(a) + visible_files_in(b),
    decreases a.len(),
{
    if a.len() == 0 {
        assert(a + b =~= b);
        assert(visible_files_in(a) + visible_files_in(b) =~= visible_files_in(b));
    } else {
        assert((a + b)[0] == a[0]);
        assert((a + b).drop_first() =~= a.drop_first() + b);
        lemma_visible_in_append(a.drop_first(), b);
        assert(visible_files(a[0]) + (visible_files_in(a.drop_first()) + visible_files_in(b))
            =~= (visible_files(a[0]) + visible_files_in(a.drop_first())) + visible_files_in(b));
    }
}

/// Extending the walked prefix by one entry appends that entry's visible
/// files.
pub proof fn lemma_visible_in_take_step(entries: Seq<TreeNode>, i: int)
    requires
        0 <= i < entries.len(),
    ensures
        visible_files_in(entries.take(i + 1)) == visible_files_in(entries.take(i))
            + visible_files(entries[i]),
{
    assert(entries.take(i + 1) =~= entries.take(i) + seq![entries[i]]);
    lemma_visible_in_append(entries.take(i), seq![entries[i]]);
    lemma_visible_in_singleton(entries[i]);
}

/// Replacing an entry by one with the same visible files leaves the
/// directory's visible files unchanged.
pub proof fn lemma_visible_update(entries: Seq<TreeNode>, i: int, t: TreeNode)
    requires
        0 <= i < entries.len(),
        visible_files(t) == visible_files(entries[i]),
    ensures
        visible_files_in(entries.update(i, t)) == visible_files_in(entries),
{
    let u = entries.update(i, t);
    assert(u =~= u.take(i) + seq![t] + u.skip(i + 1));
    assert(entries =~= entries.take(i) + seq![entries[i]] + entries.skip(i + 1));
    assert(u.take(i) =~= entries.take(i));
    assert(u.skip(i + 1) =~= entries.skip(i + 1));
    lemma_visible_in_append(u.take(i) + seq![t], u.skip(i + 1));
    lemma_visible_in_append(u.take(i), seq![t]);
    lemma_visible_in_append(entries.take(i) + seq![entries[i]], entries.skip(i + 1));
    lemma_visible_in_append(entries.take(i), seq![entries[i]]);
    lemma_visible_in_singleton(t);
    lemma_visible_in_singleton(entries[i]);
}

/// Exclusion correctness, at the tree level: an excluded subtree has no
/// visible files, so replacing it by any other subtree that keeps an excluded
/// name — in particular, the same subtree with one of its files modified —
/// leaves the visible files, and with them every scan outcome, unchanged.
pub proof fn lemma_excluded_edit_invisible(entries: Seq<TreeNode>, i: int, d: DirNode)
    requires
        0 <= i < entries.len(),
        entries[i] matches TreeNode::Dir(e) && spec_excluded(e.name@),
        spec_excluded(d.name@),
    ensures
        visible_files_in(entries.update(i, TreeNode::Dir(d))) == visible_files_in(entries),
{
    assert(visible_files(TreeNode::Dir(d)) =~= visible_files(entries[i]));
    lemma_visible_update(entries, i, TreeNode::Dir(d));
}

} // verus!
