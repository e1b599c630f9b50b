//! Artifact resolution and build-outcome rules: resolving the artifact the external toolchain
//! produces, and classifying how an invocation of it went.
//!
//! The toolchain is invoked by the caller; what this module verifies is the
//! naming convention that ties a project directory to its artifact —
//! `<dir>/target/wasm32-unknown-unknown/debug/<base>.wasm`, where `<base>` is
//! the directory's final path segment (trailing separators ignored, as a
//! file name is usually taken) and the join never doubles a separator — and
//! the rule for which invocation outcomes count as a successful build.

use vstd::prelude::*;

verus! {

broadcast use vstd::string::next_postcondition;

use vstd::std_specs::iter::IteratorSpec;
use vstd::string::StringExecFns;

/// The path with its trailing separators removed.
pub open spec fn strip_trailing_separators(s: Seq<char>) -> Seq<char>
    decreases s.len(),
{
    if s.len() > 0 && s.last() == '/' {
        strip_trailing_separators(s.drop_last())
    } else {
        s
    }
}

/// The suffix after the last `/` of a path: the whole path when it has none,
/// empty when the path ends in `/`.
pub open spec fn suffix_after_separator(s: Seq<char>) -> Seq<char>
    decreases s.len(),
{
    if s.len() == 0 {
        s
    } else if s.last() == '/' {
        Seq::empty()
    } else {
        suffix_after_separator(s.drop_last()).push(s.last())
    }
}

/// The final path segment of a path: trailing separators are ignored, and the
/// segment is what follows the last remaining separator. It is empty exactly
/// when the path has no segment at all — it is empty or consists of
/// separators only.
pub open spec fn base_name_of(s: Seq<char>) -> Seq<char> {
    suffix_after_separator(strip_trailing_separators(s))
}

/// The directory with exactly one trailing separator, ready to be joined.
pub open spec fn dir_with_separator(dir: Seq<char>) -> Seq<char> {
    if dir.len() > 0 && dir.last() == '/' {
        dir
    } else {
        dir + "/"@
    }
}

/// The artifact path the naming convention assigns to a project directory.
pub open spec fn artifact_path_of(dir: Seq<char>) -> Seq<char> {
    dir_with_separator(dir) + "target/wasm32-unknown-unknown/debug/"@ + base_name_of(dir)
        + ".wasm"@
}

/// What an artifact request asks the toolchain to produce: the artifact path
/// when the project directory has a final segment, nothing otherwise.
pub open spec fn artifact_request_of(dir: Seq<char>) -> Option<Seq<char>> {
    if base_name_of(dir).len() == 0 {
        None
    } else {
        Some(artifact_path_of(dir))
    }
}

/// Relies on `String::from_iter` (through `Iterator::collect`): collecting
/// characters yields the string made of exactly those characters, in order.
#[verifier::external_body]
fn chars_to_string(v: &Vec<char>) -> (s: String)
    ensures
        s@ == v@,
{
    v.iter().collect()
}

/// The characters of a string, as a vector.
fn str_chars(s: &str) -> (v: Vec<char>)
    ensures
        v@ == s@,
{
    let mut it = s.chars();
    let mut v: Vec<char> = Vec::new();
    loop
        invariant
            v@ + it.remaining() == s@,
            it.decrease() is Some,
        decreases it.decrease()->0,
    {
        match it.next() {
            Some(c) => {
                v.push(c);
                proof {
                    assert(v@ + it.remaining() =~= s@);
                }
            },
            None => {
                proof {
                    assert(v@ =~= s@);
                }
                return v;
            },
        }
    }
}

/// The index of the last `/` among the first `end` characters, if they
/// contain one.
fn last_separator_before(v: &Vec<char>, end: usize) -> (r: Option<usize>)
    requires
        end <= v@.len(),
    ensures
        match r {
            Some(i) => i < end && v@[i as int] == '/' && forall|j: int|
                i < j < end ==> v@[j] != '/',
            None => forall|j: int| 0 <= j < end ==> v@[j] != '/',
        },
{
    let mut i: usize = end;
    while i > 0
        invariant
            i <= end <= v@.len(),
            forall|j: int| i <= j < end ==> v@[j] != '/',
        decreases i,
    {
        i = i - 1;
        if v[i] == '/' {
            return Some(i);
        }
    }
    None
}

/// The characters of a range, as a fresh vector.
fn copy_range(v: &Vec<char>, from: usize, to: usize) -> (r: Vec<char>)
    requires
        from <= to <= v@.len(),
    ensures
        r@ == v@.subrange(from as int, to as int),
{
    let mut b: Vec<char> = Vec::new();
    let mut j: usize = from;
    while j < to
        invariant
            from <= j <= to <= v@.len(),
            b@ == v@.subrange(from as int, j as int),
        decreases to - j,
    {
        let c = v[j];
        b.push(c);
        proof {
            assert(b@ =~= v@.subrange(from as int, j + 1));
        }
        j = j + 1;
    }
    b
}

/// Stripping trailing separators is taking the prefix that ends at the last
/// non-separator character.
proof fn lemma_strip_take(s: Seq<char>, e: int)
    requires
        0 <= e <= s.len(),
        forall|j: int| e <= j < s.len() ==> s[j] == '/',
        e > 0 ==> s[e - 1] != '/',
    ensures
        strip_trailing_separators(s) == s.take(e),
    decreases s.len(),
{
    if e == s.len() {
        assert(s.take(e) =~= s);
    } else {
        let t = s.drop_last();
        assert(s.last() == '/');
        assert(forall|j: int| e <= j < t.len() ==> #[trigger] t[j] == '/');
        lemma_strip_take(t, e);
        assert(t.take(e) =~= s.take(e));
    }
}

/// With a last separator at `k`, the suffix after separators starts at `k+1`.
proof fn lemma_suffix_after(s: Seq<char>, k: int)
    requires
        0 <= k < s.len(),
        s[k] == '/',
        forall|j: int| k < j < s.len() ==> s[j] != '/',
    ensures
        suffix_after_separator(s) == s.skip(k + 1),
    decreases s.len(),
{
    if k == s.len() - 1 {
        assert(s.skip(k + 1) =~= Seq::<char>::empty());
    } else {
        let t = s.drop_last();
        assert(s.last() != '/');
        assert(t[k] == '/');
        assert(forall|j: int| k < j < t.len() ==> #[trigger] t[j] != '/');
        lemma_suffix_after(t, k);
        assert(s.skip(k + 1) =~= t.skip(k + 1).push(s.last()));
    }
}

/// Without a separator, the suffix after separators is the whole path.
proof fn lemma_suffix_whole(s: Seq<char>)
    requires
        forall|j: int| 0 <= j < s.len() ==> s[j] != '/',
    ensures
        suffix_after_separator(s) == s,
    decreases s.len(),
{
    if s.len() > 0 {
        let t = s.drop_last();
        assert(forall|j: int| 0 <= j < t.len() ==> #[trigger] t[j] != '/');
        lemma_suffix_whole(t);
        assert(t.push(s.last()) =~= s);
    }
}

/// Resolves the artifact path for a project directory by the naming
/// convention: the directory, joined with exactly one separator to
/// `target/wasm32-unknown-unknown/debug/<base>.wasm`, where `<base>` is the
/// directory's final path segment (trailing separators ignored). Yields
/// nothing exactly when the directory path has no final segment at all — it
/// is empty or consists of separators only.
pub fn wasm_artifact_path(project_dir: &String) -> (r: Option<String>)
    ensures
        r is Some <==> artifact_request_of(project_dir@) is Some,
        r is Some ==> r->0@ == artifact_path_of(project_dir@),
{
    let chars = str_chars(project_dir.as_str());

    // Ignore trailing separators: `end` is where the final segment can end.
    let mut end: usize = chars.len();
    loop
        invariant
            end <= chars@.len(),
            forall|j: int| end <= j < chars@.len() ==> chars@[j] == '/',
        ensures
            end <= chars@.len(),
            forall|j: int| end <= j < chars@.len() ==> chars@[j] == '/',
            end == 0 || chars@[end - 1] != '/',
        decreases end,
    {
        if end == 0 {
            break;
        }
        if chars[end - 1] != '/' {
            break;
        }
        end = end - 1;
    }
    proof {
        lemma_strip_take(project_dir@, end as int);
    }
    let ghost stripped = strip_trailing_separators(project_dir@);

    let base: Vec<char> = match last_separator_before(&chars, end) {
        Some(k) => {
            let b = copy_range(&chars, k + 1, end);
            proof {
                assert(forall|j: int| k < j < stripped.len() ==> #[trigger] stripped[j] != '/');
                lemma_suffix_after(stripped, k as int);
                assert(b@ =~= stripped.skip(k + 1));
            }
            b
        },
        None => {
            let b = copy_range(&chars, 0, end);
            proof {
                assert(forall|j: int| 0 <= j < stripped.len() ==> #[trigger] stripped[j] != '/');
                lemma_suffix_whole(stripped);
                assert(b@ =~= stripped);
            }
            b
        },
    };
    if base.len() == 0 {
        None
    } else {
        let mut out = project_dir.clone();
        if end == chars.len() {
            // No trailing separator: the join supplies the one separator.
            out.append("/");
        }
        out.append("target/wasm32-unknown-unknown/debug/");
        let base_str = chars_to_string(&base);
        out.append(base_str.as_str());
        out.append(".wasm");
        proof {
            assert(out@ =~= artifact_path_of(project_dir@));
        }
        Some(out)
    }
}

/// The outcome of one invocation of the external toolchain.
pub enum BuildOutcome {
    /// The compiler exited successfully and the artifact exists.
    Succeeded,
    /// The compiler exited non-zero.
    CompilerFailed,
    /// The compiler exited successfully but the expected artifact is missing.
    ArtifactMissing,
}

/// Classifies an invocation of the external toolchain: a build succeeded
/// exactly when the compiler exited successfully and the expected artifact
/// exists afterwards.
pub fn classify_build(compiler_exit_ok: bool, artifact_exists: bool) -> (r: BuildOutcome)
    ensures
        r is Succeeded <==> compiler_exit_ok && artifact_exists,
        r is CompilerFailed <==> !compiler_exit_ok,
        r is ArtifactMissing <==> compiler_exit_ok && !artifact_exists,
{
    if !compiler_exit_ok {
        BuildOutcome::CompilerFailed
    } else if !artifact_exists {
        BuildOutcome::ArtifactMissing
    } else {
        BuildOutcome::Succeeded
    }
}

} // verus!
