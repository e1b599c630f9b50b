use devloop::artifact::classify_build;
use devloop::artifact::wasm_artifact_path;
use devloop::artifact::BuildOutcome;
use devloop::server::render_dirty;
use devloop::server::ServerCore;
use devloop::tree::DirNode;
use devloop::tree::FileNode;
use devloop::tree::TreeNode;

fn fnode(path: &str, data: &[u8]) -> TreeNode {
    TreeNode::File(FileNode { path: path.to_string(), data: data.to_vec() })
}

fn root(entries: Vec<TreeNode>) -> DirNode {
    DirNode { name: "demo".to_string(), entries }
}

#[test]
fn render_dirty_literals() {
    assert_eq!(render_dirty(true), "true");
    assert_eq!(render_dirty(false), "false");
}

#[test]
fn baseline_then_edit_raises_dirty() {
    let before = root(vec![fnode("demo/lib.rs", b"content A")]);
    let after = root(vec![fnode("demo/lib.rs", b"content B")]);
    let mut core = ServerCore::new("demo".to_string());
    core.baseline(&before);
    assert!(!core.dirty);
    // Nothing changed yet: a poll reports nothing and the reply stays false.
    assert!(!core.poll(&before));
    assert_eq!(core.client_reply(), "false");
    // Edit the file: the next poll raises the flag, and a client that pings
    // after that poll receives the literal text `true`.
    assert!(core.poll(&after));
    assert!(core.dirty);
    assert_eq!(core.client_reply(), "true");
}

#[test]
fn fresh_fetch_clears_flag() {
    let before = root(vec![fnode("demo/lib.rs", b"content A")]);
    let after = root(vec![fnode("demo/lib.rs", b"content B")]);
    let mut core = ServerCore::new("demo".to_string());
    core.baseline(&before);
    core.poll(&after);
    assert!(core.dirty);
    // The artifact request resolves a build, the build succeeds, the
    // artifact is served, and the flag is cleared.
    assert!(core.begin_artifact_request().is_some());
    let served = core.finish_artifact_request(&BuildOutcome::Succeeded);
    assert!(served);
    assert!(!core.dirty);
    assert_eq!(core.client_reply(), "false");
}

#[test]
fn serve_clears_flag_whatever_it_was() {
    let mut core = ServerCore::new("demo".to_string());
    assert!(!core.dirty);
    core.finish_artifact_request(&BuildOutcome::Succeeded);
    assert!(!core.dirty);
    core.dirty = true;
    core.finish_artifact_request(&BuildOutcome::Succeeded);
    assert!(!core.dirty);
}

#[test]
fn failed_build_serves_nothing_and_preserves_state() {
    let tree = root(vec![fnode("demo/lib.rs", b"content A")]);
    let mut core = ServerCore::new("demo".to_string());
    core.baseline(&tree);
    core.dirty = true;
    assert!(!core.finish_artifact_request(&BuildOutcome::CompilerFailed));
    assert!(core.dirty);
    assert!(!core.finish_artifact_request(&BuildOutcome::ArtifactMissing));
    assert!(core.dirty);
    // The fingerprint store was not corrupted: the unchanged tree stays quiet.
    assert!(!core.poll(&tree));
}

#[test]
fn consecutive_requests_each_trigger_a_build() {
    let mut core = ServerCore::new("demo".to_string());
    let first = core.begin_artifact_request();
    assert_eq!(
        first.as_deref(),
        Some("demo/target/wasm32-unknown-unknown/debug/demo.wasm")
    );
    core.finish_artifact_request(&BuildOutcome::Succeeded);
    // No source change in between: the second request still asks for the
    // same full build rather than serving a cached artifact.
    let second = core.begin_artifact_request();
    assert_eq!(first, second);
}

#[test]
fn artifact_path_follows_naming_convention() {
    assert_eq!(
        wasm_artifact_path(&"demo".to_string()).as_deref(),
        Some("demo/target/wasm32-unknown-unknown/debug/demo.wasm")
    );
    assert_eq!(
        wasm_artifact_path(&"work/app2".to_string()).as_deref(),
        Some("work/app2/target/wasm32-unknown-unknown/debug/app2.wasm")
    );
    // Trailing separators do not hide the final segment, and the join never
    // doubles the separator.
    assert_eq!(
        wasm_artifact_path(&"demo/".to_string()).as_deref(),
        Some("demo/target/wasm32-unknown-unknown/debug/demo.wasm")
    );
    assert_eq!(
        wasm_artifact_path(&"work/app2//".to_string()).as_deref(),
        Some("work/app2//target/wasm32-unknown-unknown/debug/app2.wasm")
    );
    // A path with no segment at all resolves nothing.
    assert_eq!(wasm_artifact_path(&"".to_string()), None);
    assert_eq!(wasm_artifact_path(&"/".to_string()), None);
    assert_eq!(wasm_artifact_path(&"///".to_string()), None);
}

#[test]
fn build_outcomes_are_classified() {
    assert!(matches!(classify_build(true, true), BuildOutcome::Succeeded));
    assert!(matches!(classify_build(false, true), BuildOutcome::CompilerFailed));
    assert!(matches!(classify_build(false, false), BuildOutcome::CompilerFailed));
    assert!(matches!(classify_build(true, false), BuildOutcome::ArtifactMissing));
}
