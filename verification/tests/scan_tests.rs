use devloop::checksum::checksum;
use devloop::scan::dir_has_changes;
use devloop::scan::initial_state;
use devloop::store::State;
use devloop::tree::is_excluded_name;
use devloop::tree::DirNode;
use devloop::tree::FileNode;
use devloop::tree::TreeNode;

fn fnode(path: &str, data: &[u8]) -> TreeNode {
    TreeNode::File(FileNode { path: path.to_string(), data: data.to_vec() })
}

fn dnode(name: &str, entries: Vec<TreeNode>) -> TreeNode {
    TreeNode::Dir(DirNode { name: name.to_string(), entries })
}

fn root(entries: Vec<TreeNode>) -> DirNode {
    DirNode { name: "proj".to_string(), entries }
}

#[test]
fn checksum_is_deterministic() {
    let a = checksum(b"fn main() {}\n");
    let b = checksum(b"fn main() {}\n");
    assert_eq!(a, b);
}

#[test]
fn checksum_known_values() {
    // The classic Adler-32 example value.
    assert_eq!(checksum(b"Wikipedia"), 0x11E6_0398);
    // Adler-32 of the empty input is 1 by definition.
    assert_eq!(checksum(b""), 1);
}

#[test]
fn checksum_depends_on_content_and_order() {
    assert_ne!(checksum(b"ab"), checksum(b"ba"));
    assert_ne!(checksum(b"content A"), checksum(b"content B"));
}

#[test]
fn checksum_matches_underlying_crate() {
    let data = b"some file contents";
    assert_eq!(checksum(data), adler32::RollingAdler32::from_buffer(data).hash());
}

#[test]
fn store_record_and_lookup() {
    let mut s = State::new();
    let p = "proj/lib.rs".to_string();
    assert_eq!(s.lookup(&p), None);
    assert!(s.record(&p, 7)); // new path counts as changed
    assert_eq!(s.lookup(&p), Some(7));
    assert!(!s.record(&p, 7)); // same checksum: unchanged
    assert!(s.record(&p, 8)); // different checksum: changed
    assert_eq!(s.lookup(&p), Some(8));
    let q = "proj/other.rs".to_string();
    assert_eq!(s.lookup(&q), None);
}

#[test]
fn excluded_names() {
    assert!(is_excluded_name(&"target".to_string()));
    assert!(is_excluded_name(&".git".to_string()));
    assert!(!is_excluded_name(&"src".to_string()));
    assert!(!is_excluded_name(&"targets".to_string()));
}

#[test]
fn baseline_then_unchanged_scan_reports_nothing() {
    let tree = root(vec![
        fnode("proj/lib.rs", b"content A"),
        dnode("src", vec![fnode("proj/src/a.rs", b"aaa")]),
    ]);
    let mut s = State::new();
    initial_state(&tree, &mut s);
    assert_eq!(s.lookup(&"proj/lib.rs".to_string()), Some(checksum(b"content A")));
    assert!(!dir_has_changes(&tree, &mut s));
}

#[test]
fn edited_file_is_detected() {
    let before = root(vec![fnode("proj/lib.rs", b"content A")]);
    let after = root(vec![fnode("proj/lib.rs", b"content B")]);
    let mut s = State::new();
    initial_state(&before, &mut s);
    assert!(dir_has_changes(&after, &mut s));
    // The fresh checksum was recorded, so the same tree is quiet afterwards.
    assert!(!dir_has_changes(&after, &mut s));
}

#[test]
fn new_file_is_detected() {
    let before = root(vec![fnode("proj/lib.rs", b"content A")]);
    let after = root(vec![
        fnode("proj/lib.rs", b"content A"),
        fnode("proj/new.rs", b"fresh"),
    ]);
    let mut s = State::new();
    initial_state(&before, &mut s);
    assert!(dir_has_changes(&after, &mut s));
    assert!(!dir_has_changes(&after, &mut s));
}

#[test]
fn excluded_subtrees_are_invisible() {
    let before = root(vec![
        fnode("proj/lib.rs", b"content A"),
        dnode("target", vec![fnode("proj/target/out.bin", b"old artifact")]),
        dnode(".git", vec![fnode("proj/.git/HEAD", b"ref: old")]),
    ]);
    let after = root(vec![
        fnode("proj/lib.rs", b"content A"),
        dnode("target", vec![fnode("proj/target/out.bin", b"new artifact")]),
        dnode(".git", vec![fnode("proj/.git/HEAD", b"ref: new")]),
    ]);
    let mut s = State::new();
    initial_state(&before, &mut s);
    assert!(!dir_has_changes(&after, &mut s));
    // Nothing under the excluded subtrees was ever fingerprinted.
    assert_eq!(s.lookup(&"proj/target/out.bin".to_string()), None);
    assert_eq!(s.lookup(&"proj/.git/HEAD".to_string()), None);
}

#[test]
fn eager_exit_reports_remaining_changes_on_later_scans() {
    let before = root(vec![
        fnode("proj/a.rs", b"a1"),
        fnode("proj/b.rs", b"b1"),
    ]);
    let after = root(vec![
        fnode("proj/a.rs", b"a2"),
        fnode("proj/b.rs", b"b2"),
    ]);
    let mut s = State::new();
    initial_state(&before, &mut s);
    // The scan exits on the first change, so the second edit is still
    // unrecorded and the next scan reports it again.
    assert!(dir_has_changes(&after, &mut s));
    assert!(dir_has_changes(&after, &mut s));
    assert!(!dir_has_changes(&after, &mut s));
}
