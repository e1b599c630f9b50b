//! The live server's core: the dirty flag, the fingerprint store and the
//! watched project directory, with one function per event the server reacts
//! to — a poll tick, an inbound client message, an artifact request.
//!
//! The dirty flag means "at least one watched file has changed since the
//! artifact was last served". The polling loop only ever raises it; only a
//! successful artifact request clears it. The callers own the wiring: they
//! walk the file system into a `DirNode`, run the external toolchain, and
//! carry each reply to its client, keeping the core behind a synchronized
//! handle when it is shared across threads.

use vstd::prelude::*;

verus! {

use crate::store::State;
use crate::tree::DirNode;
use crate::tree::visible_files_in;
use crate::scan::scan_changed;
use crate::scan::scan_store;
use crate::scan::baseline_store;
use crate::scan::dir_has_changes;
use crate::scan::initial_state;
use crate::scan::file_changed;
use crate::scan::lemma_change_detected;
use crate::artifact::artifact_request_of;
use crate::artifact::artifact_path_of;
use crate::artifact::wasm_artifact_path;
use crate::artifact::BuildOutcome;

/// The text answered to a client poll: the dirty flag rendered literally.
pub open spec fn dirty_text(dirty: bool) -> Seq<char> {
    if dirty {
        "true"@
    } else {
        "false"@
    }
}

/// Renders the dirty flag as the literal text a client receives.
pub fn render_dirty(dirty: bool) -> (r: String)
    ensures
        r@ == dirty_text(dirty),
{
    if dirty {
        "true".to_owned()
    } else {
        "false".to_owned()
    }
}

/// The state one development-loop server holds: the directory it watches,
/// the fingerprints of the last scan, and the dirty flag.
pub struct ServerCore {
    pub project_dir: String,
    pub state: State,
    pub dirty: bool,
}

impl ServerCore {
    /// The core is well formed when its fingerprint store is.
    pub open spec fn wf(self) -> bool {
        self.state.wf()
    }

    /// A fresh server: empty fingerprint store, dirty flag false.
    pub fn new(project_dir: String) -> (r: ServerCore)
        ensures
            r.wf(),
            r.project_dir == project_dir,
            r.state@ == Map::<Seq<char>, u32>::empty(),
            r.dirty == false,
    {
        ServerCore { project_dir, state: State::new(), dirty: false }
    }

    /// The baseline pass: fingerprints every visible file under the root
    /// without reporting anything. The dirty flag is untouched.
    pub fn baseline(&mut self, root: &DirNode)
        requires
            old(self).wf(),
        ensures
            final(self).wf(),
            final(self).dirty == old(self).dirty,
            final(self).project_dir == old(self).project_dir,
            final(self).state@ == baseline_store(
                visible_files_in(root.entries@),
                old(self).state@,
            ),
    {
        initial_state(root, &mut self.state);
    }

    /// One tick of the polling loop: scan the root against the store, and
    /// raise the dirty flag if a change was seen. A tick never clears the
    /// flag: once true, it stays true until an artifact is served.
    pub fn poll(&mut self, root: &DirNode) -> (changed: bool)
        requires
            old(self).wf(),
        ensures
            final(self).wf(),
            changed == scan_changed(visible_files_in(root.entries@), old(self).state@),
            final(self).state@ == scan_store(visible_files_in(root.entries@), old(self).state@),
            final(self).dirty == (old(self).dirty || changed),
            final(self).project_dir == old(self).project_dir,
    {
        let changed = dir_has_changes(root, &mut self.state);
        if changed {
            self.dirty = true;
        }
        changed
    }

    /// Answers one inbound client message, whatever its content: the current
    /// dirty flag, rendered as the literal text `true` or `false`.
    pub fn client_reply(&self) -> (r: String)
        ensures
            r@ == dirty_text(self.dirty),
    {
        render_dirty(self.dirty)
    }

    /// Begins an artifact request: resolves the path the external toolchain
    /// must produce. A request always triggers a build — what is built
    /// depends on the project directory alone, never on the dirty flag or
    /// the fingerprint store.
    pub fn begin_artifact_request(&self) -> (r: Option<String>)
        ensures
            r is Some <==> artifact_request_of(self.project_dir@) is Some,
            r is Some ==> r->0@ == artifact_path_of(self.project_dir@),
    {
        wasm_artifact_path(&self.project_dir)
    }

    /// Finishes an artifact request. On a successful build the artifact is
    /// served and the dirty flag is cleared, whatever it was before; on a
    /// failed build nothing is served and the dirty flag and the store are
    /// exactly what they were.
    pub fn finish_artifact_request(&mut self, outcome: &BuildOutcome) -> (served: bool)
        requires
            old(self).wf(),
        ensures
            final(self).wf(),
            served == (outcome is Succeeded),
            final(self).dirty == (if outcome is Succeeded {
                false
            } else {
                old(self).dirty
            }),
            final(self).state == old(self).state,
            final(self).project_dir == old(self).project_dir,
    {
        match outcome {
            BuildOutcome::Succeeded => {
                self.dirty = false;
                true
            },
            BuildOutcome::CompilerFailed => false,
            BuildOutcome::ArtifactMissing => false,
        }
    }
}

/// Change-detection liveness, at the server level: if any file visible under
/// the watched root counts as changed against the server's store — it is new,
/// or its contents' checksum differs from the stored one — and no earlier
/// visible file shares its path, then the dirty flag is true as soon as the
/// next poll completes. The first two premises are exactly what `poll`
/// ensures of the server it leaves behind.
pub proof fn lemma_poll_raises_dirty(
    pre: ServerCore,
    post: ServerCore,
    root: DirNode,
    changed: bool,
    i: int,
)
    requires
        changed == scan_changed(visible_files_in(root.entries@), pre.state@),
        post.dirty == (pre.dirty || changed),
        0 <= i < visible_files_in(root.entries@).len(),
        forall|j: int|
            0 <= j < i ==> #[trigger] visible_files_in(root.entries@)[j].path@
                != visible_files_in(root.entries@)[i].path@,
        file_changed(visible_files_in(root.entries@)[i], pre.state@),
    ensures
        post.dirty,
{
    lemma_change_detected(visible_files_in(root.entries@), pre.state@, i);
}

/// Unconditional rebuild: the build invocation an artifact request issues is
/// a function of the watched project directory alone — the dirty flag and the
/// fingerprint store have no bearing — so two consecutive artifact requests
/// with no intervening source change each trigger the same, full build.
pub proof fn lemma_rebuild_unconditional(c1: ServerCore, c2: ServerCore)
    requires
        c1.project_dir@ == c2.project_dir@,
    ensures
        artifact_request_of(c1.project_dir@) == artifact_request_of(c2.project_dir@),
{
}

} // verus!
