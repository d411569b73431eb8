//! The hook scanner: finds the functions that hand-written sources override
//! through the hook marker macro.
use crate::syntax::{capture_bytes, capture_text, matches_view, query_result, run_query, Capture};
use crate::text::{byte_strings, bytes_eq};
use vstd::prelude::*;
use vstd::string::StringSliceAdditionalSpecFns;

verus! {

/// Finds every macro invocation by a plain name, with the name and the body.
pub const MACRO_QUERY: &'static str = "(macro_invocation (identifier) @macro_name (token_tree) @body)";

/// Finds the name of every function definition.
pub const FUNCTION_QUERY: &'static str = "(function_item name: (identifier) @name)";

/// The name of the macro that marks a hand-written override.
pub const HOOK_MARKER: &'static str = "cuda_hook";

/// Why a source text could not be scanned.
#[derive(Debug, Clone, Copy, PartialEq, Eq, Structural)]
pub enum ScanError {
    /// The text could not be parsed as Rust.
    Unparsable,
}

/// The body of a hook marker invocation without its outer delimiters, where
/// the match `m` is one whose macro name is the marker and whose body holds at
/// least the two delimiters.
pub open spec fn hook_body(src: Seq<u8>, m: Seq<Capture>) -> Option<Seq<u8>> {
    match (capture_text(src, m, 0), capture_text(src, m, 1)) {
        (Some(name), Some(body)) => if name == HOOK_MARKER.spec_bytes() && body.len() >= 2 {
            Some(body.subrange(1, body.len() - 1))
        } else {
            None
        },
        _ => None,
    }
}

/// The names that the matches of the function query capture in `text`, in
/// the order of the matches.
pub open spec fn function_names(text: Seq<u8>, caps: Seq<Seq<Capture>>) -> Seq<Seq<u8>>
    decreases caps.len(),
{
    if caps.len() == 0 {
        seq![]
    } else {
        let rest = function_names(text, caps.drop_last());
        match capture_text(text, caps.last(), 0) {
            Some(name) => rest.push(name),
            None => rest,
        }
    }
}

/// The names of the functions defined in the body of the marker invocation
/// matched by `m`; the body is parsed on its own.
pub open spec fn names_in_body(src: Seq<u8>, m: Seq<Capture>) -> Seq<Seq<u8>> {
    match hook_body(src, m) {
        Some(body) => match query_result(FUNCTION_QUERY@, body) {
            Some(caps) => function_names(body, caps),
            None => seq![],
        },
        None => seq![],
    }
}

/// The overridden function names found through the macro matches `outer`.
pub open spec fn hook_names(src: Seq<u8>, outer: Seq<Seq<Capture>>) -> Seq<Seq<u8>>
    decreases outer.len(),
{
    if outer.len() == 0 {
        seq![]
    } else {
        hook_names(src, outer.drop_last()) + names_in_body(src, outer.last())
    }
}

/// The set `set` after adding each of `names` that it does not hold yet.
pub open spec fn insert_all(set: Seq<Seq<u8>>, names: Seq<Seq<u8>>) -> Seq<Seq<u8>>
    decreases names.len(),
{
    if names.len() == 0 {
        set
    } else {
        let s = insert_all(set, names.drop_last());
        if s.contains(names.last()) {
            s
        } else {
            s.push(names.last())
        }
    }
}

/// The body of a hook marker invocation, without its delimiters.
pub fn marker_body(src: &[u8], m: &Vec<Capture>) -> (r: Option<Vec<u8>>)
    ensures
        match r {
            Some(b) => hook_body(src@, m@) == Some(b@),
            None => hook_body(src@, m@) is None,
        },
{
    let name = capture_bytes(src, m, 0);
    let body = capture_bytes(src, m, 1);
    match (name, body) {
        (Some(name), Some(body)) => {
            if bytes_eq(name.as_slice(), HOOK_MARKER.as_bytes()) && body.len() >= 2 {
                Some(crate::text::copy_range(body.as_slice(), 1, body.len() - 1))
            } else {
                None
            }
        },
        _ => None,
    }
}

/// The function names that the matches `caps` of the function query capture
/// in `text`.
pub fn function_names_in(text: &[u8], caps: &Vec<Vec<Capture>>) -> (r: Vec<Vec<u8>>)
    ensures
        byte_strings(r@) == function_names(text@, matches_view(caps@)),
{
    let mut out: Vec<Vec<u8>> = Vec::new();
    let mut i: usize = 0;
    while i < caps.len()
        invariant
            i <= caps@.len(),
            byte_strings(out@) == function_names(text@, matches_view(caps@.subrange(0, i as int))),
        decreases caps.len() - i,
    {
        assert(matches_view(caps@.subrange(0, i + 1)).drop_last() =~= matches_view(
            caps@.subrange(0, i as int),
        ));
        let ghost before = out@;
        if let Some(name) = capture_bytes(text, &caps[i], 0) {
            out.push(name);
            assert(byte_strings(out@) =~= byte_strings(before).push(out@.last()@));
        }
        i += 1;
    }
    assert(caps@.subrange(0, caps@.len() as int) =~= caps@);
    out
}

/// The names of the functions that the hook marker invocations in the Rust
/// source `src` define, in the order in which they stand; an error where the
/// source cannot be parsed.
pub fn scan_hook_source(src: &[u8]) -> (r: Result<Vec<Vec<u8>>, ScanError>)
    ensures
        match query_result(MACRO_QUERY@, src@) {
            Some(outer) => r matches Ok(names) && byte_strings(names@) == hook_names(src@, outer),
            None => r == Err::<Vec<Vec<u8>>, ScanError>(ScanError::Unparsable),
        },
{
    let outer = match run_query(MACRO_QUERY, src) {
        Some(outer) => outer,
        None => return Err(ScanError::Unparsable),
    };
    let ghost outer_view = matches_view(outer@);
    let mut out: Vec<Vec<u8>> = Vec::new();
    let mut i: usize = 0;
    while i < outer.len()
        invariant
            i <= outer@.len(),
            outer_view == matches_view(outer@),
            byte_strings(out@) == hook_names(src@, outer_view.subrange(0, i as int)),
        decreases outer.len() - i,
    {
        assert(outer_view.subrange(0, i + 1).drop_last() =~= outer_view.subrange(0, i as int));
        let ghost before = out@;
        let mut found: Vec<Vec<u8>> = Vec::new();
        if let Some(body) = marker_body(src, &outer[i]) {
            if let Some(caps) = run_query(FUNCTION_QUERY, body.as_slice()) {
                found = function_names_in(body.as_slice(), &caps);
            }
        }
        let ghost found_view = found@;
        assert(byte_strings(found_view) == names_in_body(src@, outer_view[i as int]));
        out.append(&mut found);
        assert(byte_strings(out@) =~= byte_strings(before) + byte_strings(found_view));
        i += 1;
    }
    assert(outer_view.subrange(0, outer_view.len() as int) =~= outer_view);
    Ok(out)
}

/// The set of overridden function names, without repetition, in the order in
/// which they were first found.
pub struct HookSet {
    names: Vec<Vec<u8>>,
}

impl View for HookSet {
    type V = Seq<Seq<u8>>;

    closed spec fn view(&self) -> Seq<Seq<u8>> {
        byte_strings(self.names@)
    }
}

impl HookSet {
    /// No name repeats.
    pub open spec fn wf(&self) -> bool {
        self@.no_duplicates()
    }

    /// The empty set.
    pub fn new() -> (r: HookSet)
        ensures
            r.wf(),
            r@ == Seq::<Seq<u8>>::empty(),
    {
        let r = HookSet { names: Vec::new() };
        assert(r@ =~= Seq::<Seq<u8>>::empty());
        r
    }

    /// Whether `name` is in the set.
    pub fn contains(&self, name: &[u8]) -> (r: bool)
        ensures
            r == self@.contains(name@),
    {
        let mut i: usize = 0;
        while i < self.names.len()
            invariant
                i <= self.names@.len(),
                forall|k: int| 0 <= k < i ==> self@[k] != name@,
            decreases self.names.len() - i,
        {
            if bytes_eq(self.names[i].as_slice(), name) {
                assert(self@[i as int] == name@);
                return true;
            }
            i += 1;
        }
        false
    }

    /// Adds `name`, unless the set holds it already.
    pub fn insert(&mut self, name: Vec<u8>)
        requires
            old(self).wf(),
        ensures
            final(self).wf(),
            final(self)@ == (if old(self)@.contains(name@) {
                old(self)@
            } else {
                old(self)@.push(name@)
            }),
    {
        if !self.contains(name.as_slice()) {
            let ghost before = self@;
            self.names.push(name);
            assert(self@ =~= before.push(name@));
        }
    }

    /// The names, in the order in which they were first added.
    pub fn names(&self) -> (r: &Vec<Vec<u8>>)
        ensures
            byte_strings(r@) == self@,
    {
        &self.names
    }

    /// The number of names.
    pub fn len(&self) -> (r: usize)
        ensures
            r == self@.len(),
    {
        self.names.len()
    }

    /// Adds each of `names` that the set does not hold yet, in order.
    pub fn insert_names(&mut self, names: Vec<Vec<u8>>)
        requires
            old(self).wf(),
        ensures
            final(self).wf(),
            final(self)@ == insert_all(old(self)@, byte_strings(names@)),
    {
        let ghost start = self@;
        let ghost all = byte_strings(names@);
        let rest = names;
        let n = rest.len();
        let mut idx: usize = 0;
        while idx < n
            invariant
                self.wf(),
                n == names@.len(),
                all == byte_strings(names@),
                all.len() == n,
                idx <= n,
                rest@ == names@,
                self@ == insert_all(start, all.subrange(0, idx as int)),
            decreases n - idx,
        {
            assert(all.subrange(0, idx + 1).drop_last() =~= all.subrange(0, idx as int));
            let name = rest[idx].clone();
            assert(name@ =~= rest@[idx as int]@);
            assert(all[idx as int] == rest@[idx as int]@);
            assert(all.subrange(0, idx + 1).last() == all[idx as int]);
            self.insert(name);
            idx += 1;
        }
        assert(all.subrange(0, n as int) =~= all);
    }

    /// Adds the names that the hook marker invocations in the Rust source
    /// `src` define; leaves the set as it was where the source cannot be
    /// parsed.
    pub fn add_source(&mut self, src: &[u8]) -> (r: Result<(), ScanError>)
        requires
            old(self).wf(),
        ensures
            final(self).wf(),
            match query_result(MACRO_QUERY@, src@) {
                Some(outer) => r is Ok && final(self)@ == insert_all(old(self)@, hook_names(src@, outer)),
                None => r == Err::<(), ScanError>(ScanError::Unparsable) && final(self)@ == old(self)@,
            },
    {
        let names = scan_hook_source(src)?;
        self.insert_names(names);
        Ok(())
    }
}

} // verus!
