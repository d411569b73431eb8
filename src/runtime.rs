//! The decisions of the runtime resolution engine: where to look for the real
//! driver library, when a symbol must be looked up, which real symbol an
//! exported name resolves, and how dispatch queries are answered.
use crate::hooks::HookSet;
use crate::prototypes::{Prototype, PrototypeView};
use crate::text::{byte_strings, bytes_eq, owned_bytes, push_bytes};
use vstd::prelude::*;
use vstd::string::StringSliceAdditionalSpecFns;

verus! {

/// The built-in places of the real driver library, in the order tried.
pub const COMPAT_PATH: &'static str = "/usr/local/cuda/compat/libcuda.so";

/// The second built-in place of the real driver library.
pub const SYSTEM_PATH: &'static str = "/usr/lib/x86_64-linux-gnu/libcuda.so";

/// The third built-in place of the real driver library.
pub const LIB64_PATH: &'static str = "/usr/lib64/libcuda.so";

/// The last built-in place of the real driver library.
pub const STUBS_PATH: &'static str = "/usr/local/cuda/targets/x86_64-linux/lib/stubs/libcuda.so";

/// The place of the library below an installation root.
pub const ROOT_SUFFIX: &'static str = "/compat/libcuda.so";

/// The built-in places, in order.
pub open spec fn builtin_paths() -> Seq<Seq<u8>> {
    seq![
        COMPAT_PATH.spec_bytes(),
        SYSTEM_PATH.spec_bytes(),
        LIB64_PATH.spec_bytes(),
        STUBS_PATH.spec_bytes(),
    ]
}

/// The places to try, in order: the one below the installation root, where
/// one is given, then the built-in ones.
pub open spec fn candidate_paths(root: Option<Seq<u8>>) -> Seq<Seq<u8>> {
    match root {
        Some(r) => seq![r + ROOT_SUFFIX.spec_bytes()] + builtin_paths(),
        None => builtin_paths(),
    }
}

/// The places to try for the real library, in order; `root` is the
/// installation root from the environment, if set.
pub fn library_candidates(root: Option<&[u8]>) -> (r: Vec<Vec<u8>>)
    ensures
        byte_strings(r@) == candidate_paths(
            match root {
                Some(b) => Some(b@),
                None => None,
            },
        ),
{
    let mut out: Vec<Vec<u8>> = Vec::new();
    if let Some(base) = root {
        let mut p = owned_bytes(base);
        push_bytes(&mut p, ROOT_SUFFIX.as_bytes());
        out.push(p);
    }
    let ghost start = byte_strings(out@);
    out.push(owned_bytes(COMPAT_PATH.as_bytes()));
    out.push(owned_bytes(SYSTEM_PATH.as_bytes()));
    out.push(owned_bytes(LIB64_PATH.as_bytes()));
    out.push(owned_bytes(STUBS_PATH.as_bytes()));
    assert(byte_strings(out@) =~= start + builtin_paths());
    assert(byte_strings(out@) =~= candidate_paths(
        match root {
            Some(b) => Some(b@),
            None => None,
        },
    ));
    out
}

/// The index of the first place whose attempt succeeded.
pub open spec fn first_success(outcomes: Seq<bool>) -> Option<int>
    decreases outcomes.len(),
{
    if outcomes.len() == 0 {
        None
    } else {
        match first_success(outcomes.drop_last()) {
            Some(i) => Some(i),
            None => if outcomes.last() {
                Some(outcomes.len() - 1)
            } else {
                None
            },
        }
    }
}

/// A search through the candidate places of the real library: places are
/// tried in order until one opens; none is tried after that.
pub struct LibrarySearch {
    paths: Vec<Vec<u8>>,
    outcomes: Vec<bool>,
}

impl LibrarySearch {
    /// The candidate places.
    pub closed spec fn paths_view(&self) -> Seq<Seq<u8>> {
        byte_strings(self.paths@)
    }

    /// The outcome of each attempt so far, in order.
    pub closed spec fn outcomes_view(&self) -> Seq<bool> {
        self.outcomes@
    }

    /// Attempts follow the places in order and stop at the first success.
    pub open spec fn wf(&self) -> bool {
        &&& self.outcomes_view().len() <= self.paths_view().len()
        &&& forall|k: int| 0 <= k < self.outcomes_view().len() - 1 ==> !self.outcomes_view()[k]
    }

    /// Whether the search is over: a place opened, or none is left.
    pub open spec fn finished(&self) -> bool {
        first_success(self.outcomes_view()) is Some || self.outcomes_view().len()
            == self.paths_view().len()
    }

    /// A search over `paths` that has tried nothing yet.
    pub fn new(paths: Vec<Vec<u8>>) -> (r: LibrarySearch)
        ensures
            r.wf(),
            r.paths_view() == byte_strings(paths@),
            r.outcomes_view() == Seq::<bool>::empty(),
    {
        let r = LibrarySearch { paths, outcomes: Vec::new() };
        r
    }

    /// The place to try next; `None` once the search is over.
    pub fn next_path(&self) -> (r: Option<&Vec<u8>>)
        requires
            self.wf(),
        ensures
            match r {
                Some(p) => !self.finished() && p@ == self.paths_view()[self.outcomes_view().len() as int],
                None => self.finished(),
            },
    {
        let n = self.outcomes.len();
        if n > 0 && self.outcomes[n - 1] {
            proof { lemma_first_success_last(self.outcomes@); }
            return None;
        }
        proof { lemma_first_success_none(self.outcomes@); }
        if n == self.paths.len() {
            return None;
        }
        Some(&self.paths[n])
    }

    /// Records whether the place that `next_path` gave opened.
    pub fn record(&mut self, opened: bool)
        requires
            old(self).wf(),
            !old(self).finished(),
        ensures
            final(self).wf(),
            final(self).paths_view() == old(self).paths_view(),
            final(self).outcomes_view() == old(self).outcomes_view().push(opened),
    {
        proof { lemma_first_success_none(self.outcomes@); }
        self.outcomes.push(opened);
    }

    /// The index of the place that opened, if one did.
    pub fn opened(&self) -> (r: Option<usize>)
        requires
            self.wf(),
        ensures
            match r {
                Some(i) => first_success(self.outcomes_view()) == Some(i as int),
                None => first_success(self.outcomes_view()) is None,
            },
    {
        let n = self.outcomes.len();
        if n > 0 && self.outcomes[n - 1] {
            proof { lemma_first_success_last(self.outcomes@); }
            Some(n - 1)
        } else {
            proof { lemma_first_success_none(self.outcomes@); }
            None
        }
    }

    /// The candidate places, in order.
    pub fn paths(&self) -> (r: &Vec<Vec<u8>>)
        ensures
            byte_strings(r@) == self.paths_view(),
    {
        &self.paths
    }
}

/// Where only the last attempt may have succeeded, the search succeeded
/// exactly where the last one did.
proof fn lemma_first_success_none(outcomes: Seq<bool>)
    requires
        forall|k: int| 0 <= k < outcomes.len() - 1 ==> !outcomes[k],
    ensures
        outcomes.len() > 0 && outcomes.last() ==> first_success(outcomes) == Some(
            outcomes.len() - 1,
        ),
        !(outcomes.len() > 0 && outcomes.last()) ==> first_success(outcomes) is None,
{
    if outcomes.len() > 0 {
        let init = outcomes.drop_last();
        assert(forall|k: int| 0 <= k < init.len() ==> init[k] == outcomes[k]);
        lemma_no_success(init);
        if !outcomes.last() {
            lemma_no_success(outcomes);
        }
    }
}

/// Where the last attempt succeeded and none before it, it is the first
/// success.
proof fn lemma_first_success_last(outcomes: Seq<bool>)
    requires
        forall|k: int| 0 <= k < outcomes.len() - 1 ==> !outcomes[k],
        outcomes.len() > 0,
        outcomes.last(),
    ensures
        first_success(outcomes) == Some(outcomes.len() - 1),
{
    lemma_first_success_none(outcomes);
}

/// Where no attempt succeeded, there is no first success.
proof fn lemma_no_success(outcomes: Seq<bool>)
    requires
        forall|k: int| 0 <= k < outcomes.len() ==> !outcomes[k],
    ensures
        first_success(outcomes) is None,
    decreases outcomes.len(),
{
    if outcomes.len() > 0 {
        let init = outcomes.drop_last();
        assert(forall|k: int| 0 <= k < init.len() ==> init[k] == outcomes[k]);
        lemma_no_success(init);
    }
}

/// The address cached for `name`, if any.
pub open spec fn cached(entries: Seq<(Seq<u8>, usize)>, name: Seq<u8>) -> Option<usize>
    decreases entries.len(),
{
    if entries.len() == 0 {
        None
    } else if entries.last().0 == name {
        Some(entries.last().1)
    } else {
        cached(entries.drop_last(), name)
    }
}

/// What a call through an exported name must do to reach the real function.
#[derive(Debug, Clone, Copy, PartialEq, Eq, Structural)]
pub enum Resolution {
    /// Call the address resolved before.
    Cached(usize),
    /// Look the symbol up in the real library first.
    Lookup,
}

/// Why a symbol could not be resolved.
#[derive(Debug, PartialEq, Eq)]
pub enum ResolveError {
    /// The real library does not export the named symbol.
    MissingSymbol(Vec<u8>),
}

/// The real addresses resolved so far, one slot per symbol name; a slot,
/// once filled, never changes.
pub struct SymbolCache {
    entries: Vec<(Vec<u8>, usize)>,
}

impl View for SymbolCache {
    type V = Seq<(Seq<u8>, usize)>;

    closed spec fn view(&self) -> Seq<(Seq<u8>, usize)> {
        self.entries@.map_values(|e: (Vec<u8>, usize)| (e.0@, e.1))
    }
}

impl SymbolCache {
    /// The empty cache.
    pub fn new() -> (r: SymbolCache)
        ensures
            r@ == Seq::<(Seq<u8>, usize)>::empty(),
    {
        let r = SymbolCache { entries: Vec::new() };
        assert(r@ =~= Seq::<(Seq<u8>, usize)>::empty());
        r
    }

    /// What a call that reaches the real symbol `name` must do: use the
    /// cached address, or look the symbol up where none is cached.
    pub fn resolution(&self, name: &[u8]) -> (r: Resolution)
        ensures
            r == match cached(self@, name@) {
                Some(a) => Resolution::Cached(a),
                None => Resolution::Lookup,
            },
    {
        let mut i: usize = self.entries.len();
        assert(self@.subrange(0, i as int) =~= self@);
        while i > 0
            invariant
                i <= self.entries@.len(),
                cached(self@, name@) == cached(self@.subrange(0, i as int), name@),
            decreases i,
        {
            assert(self@.subrange(0, i as int).drop_last() =~= self@.subrange(0, i - 1));
            let (entry, addr) = &self.entries[i - 1];
            if bytes_eq(entry.as_slice(), name) {
                return Resolution::Cached(*addr);
            }
            i -= 1;
        }
        Resolution::Lookup
    }

    /// Records the outcome of looking `name` up: its address fills the slot;
    /// where the library does not export it, nothing changes and the error
    /// names the symbol.
    pub fn complete(&mut self, name: &[u8], found: Option<usize>) -> (r: Result<usize, ResolveError>)
        requires
            cached(old(self)@, name@) is None,
        ensures
            match found {
                Some(a) => r == Ok::<usize, ResolveError>(a) && final(self)@ == old(self)@.push(
                    (name@, a),
                ),
                None => final(self)@ == old(self)@ && (r matches Err(ResolveError::MissingSymbol(n))
                    && n@ == name@),
            },
    {
        match found {
            Some(a) => {
                let ghost before = self@;
                self.entries.push((owned_bytes(name), a));
                assert(self@ =~= before.push((name@, a)));
                Ok(a)
            },
            None => Err(ResolveError::MissingSymbol(owned_bytes(name))),
        }
    }
}

/// Once a symbol is resolved, every later call through it uses the cached
/// address and looks nothing up; the slots of other symbols are unchanged.
pub proof fn lemma_resolve_once(entries: Seq<(Seq<u8>, usize)>, name: Seq<u8>, addr: usize, other: Seq<u8>)
    ensures
        cached(entries.push((name, addr)), name) == Some(addr),
        other != name ==> cached(entries.push((name, addr)), other) == cached(entries, other),
{
    assert(entries.push((name, addr)).drop_last() =~= entries);
}

/// The real symbol that an exported name resolves: for the prototype's name
/// and each of its aliases, the prototype's own name.
pub open spec fn real_symbol(p: PrototypeView, exported: Seq<u8>) -> Option<Seq<u8>> {
    if exported == p.name || p.aliases.contains(exported) {
        Some(p.name)
    } else {
        None
    }
}

/// The real symbol that `exported` resolves, where it is the name or an
/// alias of `p`.
pub fn real_symbol_of<'a>(p: &'a Prototype, exported: &[u8]) -> (r: Option<&'a Vec<u8>>)
    ensures
        match r {
            Some(s) => real_symbol(p@, exported@) == Some(s@),
            None => real_symbol(p@, exported@) is None,
        },
{
    if bytes_eq(p.name.as_slice(), exported) {
        return Some(&p.name);
    }
    let mut i: usize = 0;
    while i < p.aliases.len()
        invariant
            i <= p.aliases@.len(),
            exported@ != p@.name,
            forall|k: int| 0 <= k < i ==> p@.aliases[k] != exported@,
        decreases p.aliases.len() - i,
    {
        if bytes_eq(p.aliases[i].as_slice(), exported) {
            assert(p@.aliases[i as int] == exported@);
            return Some(&p.name);
        }
        i += 1;
    }
    None
}

/// A call through an alias reaches the same real function, through the same
/// cache slot, as a call through the prototype's own name.
pub proof fn lemma_alias_equivalence(p: PrototypeView, alias: Seq<u8>, entries: Seq<(Seq<u8>, usize)>)
    requires
        p.aliases.contains(alias),
    ensures
        real_symbol(p, alias) == real_symbol(p, p.name),
        cached(entries, real_symbol(p, alias).unwrap()) == cached(entries, real_symbol(p, p.name).unwrap()),
{
}

/// How a dynamic-dispatch query for a name is answered.
#[derive(Debug, Clone, Copy, PartialEq, Eq, Structural)]
pub enum Route {
    /// With the address of this layer's own override of the name.
    Override,
    /// By the real dispatch entry point, whose answer is returned as it is.
    Forward,
}

/// How a dispatch query for `name` is answered: with the override where the
/// name is hooked, else by the real entry point.
pub fn dispatch_route(hooks: &HookSet, name: &[u8]) -> (r: Route)
    ensures
        r == (if hooks@.contains(name@) {
            Route::Override
        } else {
            Route::Forward
        }),
{
    if hooks.contains(name) {
        Route::Override
    } else {
        Route::Forward
    }
}

} // verus!
