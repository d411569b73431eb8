//! The build step: where it reads and writes, and what it writes.
use crate::codegen::{passthrough_source, passthrough_text};
use crate::hooks::HookSet;
use crate::reconcile::{passthrough_set, PrototypeList};
use crate::text::bytes_eq;
use vstd::prelude::*;
use vstd::string::StringSliceAdditionalSpecFns;

verus! {

/// The name of the generated binding files that declare the driver's
/// entry points.
pub const BINDINGS_FILE: &'static str = "driver_internal_sys.rs";

/// The name of the generated dispatch-table source.
pub const HOOK_MAP_FILE: &'static str = "hook_map.rs";

/// The name of the generated passthrough source.
pub const PASSTHROUGH_FILE: &'static str = "passthroughs_driver.rs";

/// The directory, below the package, scanned for hooks by default.
pub const DEFAULT_SRC: &'static str = "src";

/// The path `path` without its last component, as a path buffer's `pop`
/// leaves it.
pub uninterp spec fn popped(path: Seq<char>) -> Seq<char>;

/// The path `base` with `part` joined to it, as a path's `join` gives it.
pub uninterp spec fn joined(base: Seq<char>, part: Seq<char>) -> Seq<char>;

/// Relies on std's `PathBuf::pop`: the path without its last component, or
/// the path unchanged where it has none.
#[verifier::external_body]
fn pop_component(path: &String) -> (r: String)
    ensures
        r@ == popped(path@),
{
    let mut p = std::path::PathBuf::from(path);
    p.pop();
    p.to_string_lossy().into_owned()
}

/// Relies on std's `Path::join`: `part` below `base`.
#[verifier::external_body]
fn join_path(base: &String, part: &str) -> (r: String)
    ensures
        r@ == joined(base@, part@),
{
    std::path::Path::new(base).join(part).to_string_lossy().into_owned()
}

/// `path` with its last `n` components taken off.
pub open spec fn ancestor(path: Seq<char>, n: nat) -> Seq<char>
    decreases n,
{
    if n == 0 {
        path
    } else {
        popped(ancestor(path, (n - 1) as nat))
    }
}

/// The build's target directory: three levels above its output directory.
pub fn find_target_dir(out_dir: &String) -> (r: String)
    ensures
        r@ == ancestor(out_dir@, 3),
{
    let mut p = out_dir.clone();
    let mut k: usize = 0;
    while k < 3
        invariant
            k <= 3,
            p@ == ancestor(out_dir@, k as nat),
        decreases 3 - k,
    {
        p = pop_component(&p);
        k += 1;
    }
    p
}

/// Whether a file of this name holds generated driver bindings.
pub fn is_bindings_file(file_name: &[u8]) -> (r: bool)
    ensures
        r == (file_name@ == BINDINGS_FILE.spec_bytes()),
{
    bytes_eq(file_name, BINDINGS_FILE.as_bytes())
}

/// The directories of a build: the package, the sources scanned for hooks,
/// and the output.
pub struct BuilderView {
    pub manifest_dir: Seq<char>,
    pub src_dir: Seq<char>,
    pub out_dir: Seq<char>,
}

/// Where a build scans for hooks, and where it writes.
pub struct InterposerBuilder {
    src_dir: String,
    out_dir: String,
    manifest_dir: String,
}

impl View for InterposerBuilder {
    type V = BuilderView;

    closed spec fn view(&self) -> BuilderView {
        BuilderView {
            manifest_dir: self.manifest_dir@,
            src_dir: self.src_dir@,
            out_dir: self.out_dir@,
        }
    }
}

impl InterposerBuilder {
    /// A build of the package at `manifest_dir` writing to `out_dir`, which
    /// scans the package's `src` directory for hooks.
    pub fn new(manifest_dir: String, out_dir: String) -> (r: InterposerBuilder)
        ensures
            r@.manifest_dir == manifest_dir@,
            r@.out_dir == out_dir@,
            r@.src_dir == joined(manifest_dir@, DEFAULT_SRC@),
    {
        let src_dir = join_path(&manifest_dir, DEFAULT_SRC);
        InterposerBuilder { src_dir, out_dir, manifest_dir }
    }

    /// The same build, scanning `path` for hooks.
    pub fn with_src(self, path: String) -> (r: InterposerBuilder)
        ensures
            r@.src_dir == path@,
            r@.manifest_dir == self@.manifest_dir,
            r@.out_dir == self@.out_dir,
    {
        InterposerBuilder { src_dir: path, ..self }
    }

    /// The directory scanned for hooks.
    pub fn src_dir(&self) -> (r: &String)
        ensures
            r@ == self@.src_dir,
    {
        &self.src_dir
    }

    /// The directory the generated sources go to.
    pub fn out_dir(&self) -> (r: &String)
        ensures
            r@ == self@.out_dir,
    {
        &self.out_dir
    }

    /// The package directory.
    pub fn manifest_dir(&self) -> (r: &String)
        ensures
            r@ == self@.manifest_dir,
    {
        &self.manifest_dir
    }

    /// The directory searched for generated driver bindings.
    pub fn target_dir(&self) -> (r: String)
        ensures
            r@ == ancestor(self@.out_dir, 3),
    {
        find_target_dir(&self.out_dir)
    }
}

/// The passthrough source a build writes, and whether it found any
/// prototype at all.
pub struct BuildPlan {
    pub passthroughs: Vec<u8>,
    pub found_prototypes: bool,
}

/// The passthrough source a build writes for the hooks `hooks` and the
/// prototypes `protos`: a passthrough for every prototype that is neither
/// hooked nor special and is of the public API. The dispatch table of the
/// hooks is `hook_map_source`.
pub fn build_plan(hooks: &HookSet, protos: PrototypeList) -> (r: BuildPlan)
    ensures
        r.passthroughs@ == passthrough_text(passthrough_set(protos@, hooks@)),
        r.found_prototypes == (protos@.len() > 0),
{
    let found_prototypes = protos.len() > 0;
    let forwarded = protos.passthroughs(hooks);
    let passthroughs = passthrough_source(&forwarded);
    BuildPlan { passthroughs, found_prototypes }
}

} // verus!
