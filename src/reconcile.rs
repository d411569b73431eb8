//! The set reconciler: the deduplicated list of prototypes, and the
//! passthrough set that remains once hooked and special names are taken out.
use crate::hooks::{HookSet, ScanError};
use crate::prototypes::{prototypes_view, scan_prototype_source, Prototype, PrototypeView, DRIVER_PREFIX};
use crate::syntax::query_result;
use crate::text::{bytes_eq, is_prefix, starts_with};
use vstd::prelude::*;
use vstd::string::StringSliceAdditionalSpecFns;

verus! {

/// The driver's dynamic-dispatch query entry point.
pub const PROC_ADDRESS: &'static str = "cuGetProcAddress";

/// The second version of the dynamic-dispatch query entry point.
pub const PROC_ADDRESS_V2: &'static str = "cuGetProcAddress_v2";

/// The names of the entry points that the layer handles itself.
pub open spec fn is_special(name: Seq<u8>) -> bool {
    name == PROC_ADDRESS.spec_bytes() || name == PROC_ADDRESS_V2.spec_bytes()
}

/// The names of a list of prototypes.
pub open spec fn names_of(protos: Seq<PrototypeView>) -> Seq<Seq<u8>> {
    protos.map_values(|p: PrototypeView| p.name)
}

/// `protos` after adding each of `more` whose name it does not hold yet.
pub open spec fn merge(protos: Seq<PrototypeView>, more: Seq<PrototypeView>) -> Seq<PrototypeView>
    decreases more.len(),
{
    if more.len() == 0 {
        protos
    } else {
        let s = merge(protos, more.drop_last());
        if names_of(s).contains(more.last().name) {
            s
        } else {
            s.push(more.last())
        }
    }
}

/// Whether a name with the given hook set is forwarded by a generated
/// passthrough: it is not hooked, not special, and of the public API.
pub open spec fn is_passthrough_name(hooks: Seq<Seq<u8>>, name: Seq<u8>) -> bool {
    !hooks.contains(name) && !is_special(name) && is_prefix(DRIVER_PREFIX.spec_bytes(), name)
}

/// The prototypes that receive a generated passthrough, in order.
pub open spec fn passthrough_set(protos: Seq<PrototypeView>, hooks: Seq<Seq<u8>>) -> Seq<PrototypeView>
    decreases protos.len(),
{
    if protos.len() == 0 {
        seq![]
    } else {
        let s = passthrough_set(protos.drop_last(), hooks);
        if is_passthrough_name(hooks, protos.last().name) {
            s.push(protos.last())
        } else {
            s
        }
    }
}

/// The names of the public driver API among the prototypes.
pub open spec fn in_surface(protos: Seq<PrototypeView>, name: Seq<u8>) -> bool {
    names_of(protos).contains(name) && is_prefix(DRIVER_PREFIX.spec_bytes(), name)
}

/// Whether `name` is one of the entry points that the layer handles itself.
pub fn special_name(name: &[u8]) -> (r: bool)
    ensures
        r == is_special(name@),
{
    bytes_eq(name, PROC_ADDRESS.as_bytes()) || bytes_eq(name, PROC_ADDRESS_V2.as_bytes())
}

/// Whether the prototype named `name` receives a generated passthrough.
pub fn passthrough_name(hooks: &HookSet, name: &[u8]) -> (r: bool)
    ensures
        r == is_passthrough_name(hooks@, name@),
{
    !hooks.contains(name) && !special_name(name) && starts_with(name, DRIVER_PREFIX.as_bytes())
}

/// The prototypes found so far, one per name: of two with the same name the
/// first one found is kept.
pub struct PrototypeList {
    protos: Vec<Prototype>,
}

impl View for PrototypeList {
    type V = Seq<PrototypeView>;

    closed spec fn view(&self) -> Seq<PrototypeView> {
        prototypes_view(self.protos@)
    }
}

impl PrototypeList {
    /// No name repeats.
    pub open spec fn wf(&self) -> bool {
        names_of(self@).no_duplicates()
    }

    /// The empty list.
    pub fn new() -> (r: PrototypeList)
        ensures
            r.wf(),
            r@ == Seq::<PrototypeView>::empty(),
    {
        let r = PrototypeList { protos: Vec::new() };
        assert(r@ =~= Seq::<PrototypeView>::empty());
        assert(names_of(r@) =~= Seq::<Seq<u8>>::empty());
        r
    }

    /// The number of prototypes.
    pub fn len(&self) -> (r: usize)
        ensures
            r == self@.len(),
    {
        self.protos.len()
    }

    /// Whether a prototype named `name` is in the list.
    pub fn contains_name(&self, name: &[u8]) -> (r: bool)
        ensures
            r == names_of(self@).contains(name@),
    {
        let mut i: usize = 0;
        while i < self.protos.len()
            invariant
                i <= self.protos@.len(),
                forall|k: int| 0 <= k < i ==> names_of(self@)[k] != name@,
            decreases self.protos.len() - i,
        {
            if bytes_eq(self.protos[i].name.as_slice(), name) {
                assert(names_of(self@)[i as int] == name@);
                return true;
            }
            i += 1;
        }
        false
    }

    /// Adds `p`, unless a prototype of the same name is in the list already.
    pub fn add(&mut self, p: Prototype)
        requires
            old(self).wf(),
        ensures
            final(self).wf(),
            final(self)@ == (if names_of(old(self)@).contains(p@.name) {
                old(self)@
            } else {
                old(self)@.push(p@)
            }),
    {
        if !self.contains_name(p.name.as_slice()) {
            let ghost before = self@;
            let ghost pv = p@;
            self.protos.push(p);
            assert(self@ =~= before.push(pv));
            assert(names_of(self@) =~= names_of(before).push(pv.name));
        }
    }

    /// Adds each of `more`, in order, whose name the list does not hold yet.
    pub fn add_all(&mut self, more: Vec<Prototype>)
        requires
            old(self).wf(),
        ensures
            final(self).wf(),
            final(self)@ == merge(old(self)@, prototypes_view(more@)),
    {
        let ghost start = self@;
        let ghost all = prototypes_view(more@);
        let mut rest = more;
        let n = rest.len();
        let mut taken: usize = 0;
        while rest.len() > 0
            invariant
                self.wf(),
                all == prototypes_view(more@),
                n == more@.len(),
                taken + rest@.len() == n,
                prototypes_view(rest@) == all.subrange(taken as int, all.len() as int),
                self@ == merge(start, all.subrange(0, taken as int)),
            decreases rest.len(),
        {
            assert(all.subrange(0, taken + 1).drop_last() =~= all.subrange(0, taken as int));
            let ghost rv = prototypes_view(rest@);
            assert(rv[0] == all[taken as int]);
            let p = rest.remove(0);
            assert(prototypes_view(rest@) =~= rv.drop_first());
            assert(rv.drop_first() =~= all.subrange(taken + 1, all.len() as int));
            self.add(p);
            taken += 1;
        }
        assert(all.subrange(0, all.len() as int) =~= all);
    }

    /// Adds the driver prototypes declared in the Rust source `src`; leaves
    /// the list as it was where the source cannot be parsed.
    pub fn add_source(&mut self, src: &[u8]) -> (r: Result<(), ScanError>)
        requires
            old(self).wf(),
        ensures
            final(self).wf(),
            match (
                query_result(crate::prototypes::SIGNATURE_QUERY@, src@),
                query_result(crate::prototypes::PARAMETER_QUERY@, src@),
            ) {
                (Some(sigs), Some(pms)) => r is Ok && final(self)@ == merge(
                    old(self)@,
                    crate::prototypes::prototypes_of(src@, sigs, pms),
                ),
                _ => r is Err && final(self)@ == old(self)@,
            },
    {
        let found = scan_prototype_source(src)?;
        self.add_all(found);
        Ok(())
    }

    /// The prototypes, in the order in which they were first found.
    pub fn prototypes(&self) -> (r: &Vec<Prototype>)
        ensures
            prototypes_view(r@) == self@,
    {
        &self.protos
    }

    /// The prototypes that receive a generated passthrough under the hook
    /// set `hooks`, in order.
    pub fn passthroughs(self, hooks: &HookSet) -> (r: Vec<Prototype>)
        ensures
            prototypes_view(r@) == passthrough_set(self@, hooks@),
    {
        let ghost all = self@;
        let mut rest = self.protos;
        let n = rest.len();
        let mut out: Vec<Prototype> = Vec::new();
        let mut taken: usize = 0;
        while rest.len() > 0
            invariant
                all.len() == n,
                n == taken + rest@.len(),
                prototypes_view(rest@) == all.subrange(taken as int, all.len() as int),
                prototypes_view(out@) == passthrough_set(all.subrange(0, taken as int), hooks@),
            decreases rest.len(),
        {
            assert(all.subrange(0, taken + 1).drop_last() =~= all.subrange(0, taken as int));
            let ghost rv = prototypes_view(rest@);
            assert(rv[0] == all[taken as int]);
            let p = rest.remove(0);
            assert(prototypes_view(rest@) =~= rv.drop_first());
            assert(rv.drop_first() =~= all.subrange(taken + 1, all.len() as int));
            if passthrough_name(hooks, p.name.as_slice()) {
                let ghost before = out@;
                out.push(p);
                assert(prototypes_view(out@) =~= prototypes_view(before).push(all[taken as int]));
            }
            taken += 1;
        }
        assert(all.subrange(0, all.len() as int) =~= all);
        out
    }
}

/// A sequence with `x` pushed holds `n` exactly when the sequence held it or
/// `x` is `n`.
proof fn lemma_push_contains<A>(s: Seq<A>, x: A, n: A)
    ensures
        s.push(x).contains(n) <==> (s.contains(n) || x == n),
{
    if s.contains(n) {
        let i = choose|i: int| 0 <= i < s.len() && s[i] == n;
        assert(s.push(x)[i] == n);
    }
    if x == n {
        assert(s.push(x)[s.len() as int] == n);
    }
    if s.push(x).contains(n) {
        let i = choose|i: int| 0 <= i < s.push(x).len() && s.push(x)[i] == n;
        if i < s.len() {
            assert(s[i] == n);
        }
    }
}

/// A name is in the passthrough set exactly when one of the prototypes
/// carries it and it is a passthrough name.
pub proof fn lemma_passthrough_names(protos: Seq<PrototypeView>, hooks: Seq<Seq<u8>>, name: Seq<u8>)
    ensures
        names_of(passthrough_set(protos, hooks)).contains(name) <==> (names_of(protos).contains(
            name,
        ) && is_passthrough_name(hooks, name)),
    decreases protos.len(),
{
    if protos.len() > 0 {
        let init = protos.drop_last();
        let last = protos.last();
        lemma_passthrough_names(init, hooks, name);
        assert(names_of(protos) =~= names_of(init).push(last.name));
        lemma_push_contains(names_of(init), last.name, name);
        let s = passthrough_set(init, hooks);
        if is_passthrough_name(hooks, last.name) {
            assert(names_of(passthrough_set(protos, hooks)) =~= names_of(s).push(last.name));
            lemma_push_contains(names_of(s), last.name, name);
        }
    } else {
        assert(names_of(protos) =~= Seq::<Seq<u8>>::empty());
        assert(names_of(passthrough_set(protos, hooks)) =~= Seq::<Seq<u8>>::empty());
    }
}

/// Every name of the public driver API that the prototypes declare is
/// exactly one of: hooked by hand, forwarded by a generated passthrough, or
/// handled by the layer itself. A name that is both hooked and special is
/// left out: it is two of them.
pub proof fn lemma_partition(protos: Seq<PrototypeView>, hooks: Seq<Seq<u8>>, name: Seq<u8>)
    requires
        in_surface(protos, name),
        !(hooks.contains(name) && is_special(name)),
    ensures
        ({
            let hooked = hooks.contains(name);
            let forwarded = names_of(passthrough_set(protos, hooks)).contains(name);
            let special = is_special(name);
            (hooked && !forwarded && !special) || (!hooked && forwarded && !special) || (!hooked
                && !forwarded && special)
        }),
{
    lemma_passthrough_names(protos, hooks, name);
}

} // verus!
