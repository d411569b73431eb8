//! The code generator: the dispatch-table source and the passthrough source.
use crate::hooks::HookSet;
use crate::prototypes::{args_view, prototypes_view, Prototype, PrototypeView};
use crate::text::{byte_strings, push_bytes};
use vstd::prelude::*;
use vstd::string::StringSliceAdditionalSpecFns;

verus! {

/// Opens the dispatch table: a closure from a name to an optional address.
pub const TABLE_HEAD: &'static str = "|name: &str| {\n    match name {\n";

/// Closes the dispatch table: every other name is not found.
pub const TABLE_TAIL: &'static str = "        _ => None,\n    }\n}\n";

/// Opens a table arm, before its key.
pub const ARM_OPEN: &'static str = "        \"";

/// Between an arm's key and the name of the override that the arm declares
/// as a symbol resolved at link time.
pub const ARM_DECLARE: &'static str = "\" => {\n            unsafe extern \"C\" { fn ";

/// Between the declaration and the override's address.
pub const ARM_ADDRESS: &'static str = "(); }\n            Some(";

/// Closes a table arm: the address as an untyped pointer.
pub const ARM_CLOSE: &'static str = " as *const () as *mut std::os::raw::c_void)\n        },\n";

/// Opens a passthrough, before its name.
pub const PROXY_OPEN: &'static str = "cuda_interposer::generate_proxy! { fn ";

/// Between a passthrough's name and its parameters.
pub const PROXY_PARAMS: &'static str = "([";

/// Between a passthrough's parameters and its return type.
pub const PROXY_RET: &'static str = "]) -> ";

/// Between a passthrough's return type and the real symbol it resolves.
pub const PROXY_SYMBOL: &'static str = "; name: ";

/// Before the list of aliases of a passthrough.
pub const PROXY_ALIASES: &'static str = ", aliases: ";

/// Closes a passthrough.
pub const PROXY_CLOSE: &'static str = " }\n";

/// Separates the items of a list.
pub const SEPARATOR: &'static str = ", ";

/// Opens a parameter.
pub const PARAM_OPEN: &'static str = "(";

/// Between a parameter's name and its type.
pub const PARAM_TYPE: &'static str = ": ";

/// Closes a parameter.
pub const PARAM_CLOSE: &'static str = ")";

/// The table arm that maps `name` to the address of the override of that
/// name.
pub open spec fn table_arm(name: Seq<u8>) -> Seq<u8> {
    ARM_OPEN.spec_bytes() + name + ARM_DECLARE.spec_bytes() + name + ARM_ADDRESS.spec_bytes() + name
        + ARM_CLOSE.spec_bytes()
}

/// One arm for each of `names`, in order.
pub open spec fn table_arms(names: Seq<Seq<u8>>) -> Seq<u8>
    decreases names.len(),
{
    if names.len() == 0 {
        seq![]
    } else {
        table_arms(names.drop_last()) + table_arm(names.last())
    }
}

/// The dispatch-table source for the hooked names `names`.
pub open spec fn table_text(names: Seq<Seq<u8>>) -> Seq<u8> {
    TABLE_HEAD.spec_bytes() + table_arms(names) + TABLE_TAIL.spec_bytes()
}

/// A parameter as it stands in a passthrough.
pub open spec fn param_text(a: (Seq<u8>, Seq<u8>)) -> Seq<u8> {
    PARAM_OPEN.spec_bytes() + a.0 + PARAM_TYPE.spec_bytes() + a.1 + PARAM_CLOSE.spec_bytes()
}

/// The parameters, in order, separated by the separator.
pub open spec fn params_text(args: Seq<(Seq<u8>, Seq<u8>)>) -> Seq<u8>
    decreases args.len(),
{
    if args.len() == 0 {
        seq![]
    } else if args.len() == 1 {
        param_text(args[0])
    } else {
        params_text(args.drop_last()) + SEPARATOR.spec_bytes() + param_text(args.last())
    }
}

/// The names, in order, separated by the separator.
pub open spec fn names_text(names: Seq<Seq<u8>>) -> Seq<u8>
    decreases names.len(),
{
    if names.len() == 0 {
        seq![]
    } else if names.len() == 1 {
        names[0]
    } else {
        names_text(names.drop_last()) + SEPARATOR.spec_bytes() + names.last()
    }
}

/// The alias clause of a passthrough; nothing where there are no aliases.
pub open spec fn aliases_text(aliases: Seq<Seq<u8>>) -> Seq<u8> {
    if aliases.len() == 0 {
        seq![]
    } else {
        PROXY_ALIASES.spec_bytes() + names_text(aliases)
    }
}

/// The passthrough for `p`: its name, its parameters and return type as
/// declared, the real symbol it resolves (its own name, also for its
/// aliases), and its aliases.
pub open spec fn proxy_text(p: PrototypeView) -> Seq<u8> {
    PROXY_OPEN.spec_bytes() + p.name + PROXY_PARAMS.spec_bytes() + params_text(p.args)
        + PROXY_RET.spec_bytes() + p.ret + PROXY_SYMBOL.spec_bytes() + p.name + aliases_text(
        p.aliases,
    ) + PROXY_CLOSE.spec_bytes()
}

/// One passthrough for each of `protos`, in order.
pub open spec fn passthrough_text(protos: Seq<PrototypeView>) -> Seq<u8>
    decreases protos.len(),
{
    if protos.len() == 0 {
        seq![]
    } else {
        passthrough_text(protos.drop_last()) + proxy_text(protos.last())
    }
}

/// The dispatch-table source: one arm for each hooked name, in the order of
/// the set, mapping it to the address of its override; any other name is not
/// found.
pub fn hook_map_source(hooks: &HookSet) -> (r: Vec<u8>)
    ensures
        r@ == table_text(hooks@),
{
    let names = hooks.names();
    let ghost all = byte_strings(names@);
    let mut out: Vec<u8> = Vec::new();
    push_bytes(&mut out, TABLE_HEAD.as_bytes());
    let mut i: usize = 0;
    while i < names.len()
        invariant
            i <= names@.len(),
            all == byte_strings(names@),
            out@ == TABLE_HEAD.spec_bytes() + table_arms(all.subrange(0, i as int)),
        decreases names.len() - i,
    {
        assert(all.subrange(0, i + 1).drop_last() =~= all.subrange(0, i as int));
        let name = names[i].as_slice();
        assert(name@ == all[i as int]);
        let ghost before = out@;
        push_bytes(&mut out, ARM_OPEN.as_bytes());
        push_bytes(&mut out, name);
        push_bytes(&mut out, ARM_DECLARE.as_bytes());
        push_bytes(&mut out, name);
        push_bytes(&mut out, ARM_ADDRESS.as_bytes());
        push_bytes(&mut out, name);
        push_bytes(&mut out, ARM_CLOSE.as_bytes());
        assert(out@ =~= before + table_arm(all[i as int]));
        i += 1;
    }
    assert(all.subrange(0, all.len() as int) =~= all);
    push_bytes(&mut out, TABLE_TAIL.as_bytes());
    out
}

/// Appends the parameters `args`, separated, to `out`.
fn push_params(out: &mut Vec<u8>, args: &Vec<(Vec<u8>, Vec<u8>)>)
    ensures
        final(out)@ == old(out)@ + params_text(args_view(args@)),
{
    let ghost start = out@;
    let ghost all = args_view(args@);
    let mut i: usize = 0;
    while i < args.len()
        invariant
            i <= args@.len(),
            all == args_view(args@),
            out@ == start + params_text(all.subrange(0, i as int)),
        decreases args.len() - i,
    {
        assert(all.subrange(0, i + 1).drop_last() =~= all.subrange(0, i as int));
        let ghost before = out@;
        if i > 0 {
            push_bytes(out, SEPARATOR.as_bytes());
        }
        let (name, ty) = &args[i];
        assert(all[i as int] == (name@, ty@));
        push_bytes(out, PARAM_OPEN.as_bytes());
        push_bytes(out, name.as_slice());
        push_bytes(out, PARAM_TYPE.as_bytes());
        push_bytes(out, ty.as_slice());
        push_bytes(out, PARAM_CLOSE.as_bytes());
        if i == 0 {
            assert(all.subrange(0, 1) =~= seq![all[0]]);
            assert(out@ =~= start + params_text(all.subrange(0, 1)));
        } else {
            assert(out@ =~= before + SEPARATOR.spec_bytes() + param_text(all[i as int]));
        }
        i += 1;
    }
    assert(all.subrange(0, all.len() as int) =~= all);
}

/// Appends the names `names`, separated, to `out`.
fn push_names(out: &mut Vec<u8>, names: &Vec<Vec<u8>>)
    ensures
        final(out)@ == old(out)@ + names_text(byte_strings(names@)),
{
    let ghost start = out@;
    let ghost all = byte_strings(names@);
    let mut i: usize = 0;
    while i < names.len()
        invariant
            i <= names@.len(),
            all == byte_strings(names@),
            out@ == start + names_text(all.subrange(0, i as int)),
        decreases names.len() - i,
    {
        assert(all.subrange(0, i + 1).drop_last() =~= all.subrange(0, i as int));
        let ghost before = out@;
        if i > 0 {
            push_bytes(out, SEPARATOR.as_bytes());
        }
        assert(names[i as int]@ == all[i as int]);
        push_bytes(out, names[i].as_slice());
        if i == 0 {
            assert(all.subrange(0, 1) =~= seq![all[0]]);
            assert(out@ =~= start + names_text(all.subrange(0, 1)));
        } else {
            assert(out@ =~= before + SEPARATOR.spec_bytes() + all[i as int]);
        }
        i += 1;
    }
    assert(all.subrange(0, all.len() as int) =~= all);
}

/// The passthrough source for `p`.
pub fn proxy_source(p: &Prototype) -> (r: Vec<u8>)
    ensures
        r@ == proxy_text(p@),
{
    let mut out: Vec<u8> = Vec::new();
    push_bytes(&mut out, PROXY_OPEN.as_bytes());
    push_bytes(&mut out, p.name.as_slice());
    push_bytes(&mut out, PROXY_PARAMS.as_bytes());
    push_params(&mut out, &p.args);
    push_bytes(&mut out, PROXY_RET.as_bytes());
    push_bytes(&mut out, p.ret.as_slice());
    push_bytes(&mut out, PROXY_SYMBOL.as_bytes());
    push_bytes(&mut out, p.name.as_slice());
    let ghost before_aliases = out@;
    if p.aliases.len() > 0 {
        push_bytes(&mut out, PROXY_ALIASES.as_bytes());
        push_names(&mut out, &p.aliases);
    }
    assert(out@ =~= before_aliases + aliases_text(p@.aliases));
    push_bytes(&mut out, PROXY_CLOSE.as_bytes());
    assert(out@ =~= proxy_text(p@));
    out
}

/// The passthrough source: one passthrough for each of `protos`, in order,
/// each with the name, parameters and return type of its prototype, which
/// resolves the real symbol of that name for the name and all its aliases.
pub fn passthrough_source(protos: &Vec<Prototype>) -> (r: Vec<u8>)
    ensures
        r@ == passthrough_text(prototypes_view(protos@)),
{
    let ghost all = prototypes_view(protos@);
    let mut out: Vec<u8> = Vec::new();
    let mut i: usize = 0;
    while i < protos.len()
        invariant
            i <= protos@.len(),
            all == prototypes_view(protos@),
            out@ == passthrough_text(all.subrange(0, i as int)),
        decreases protos.len() - i,
    {
        assert(all.subrange(0, i + 1).drop_last() =~= all.subrange(0, i as int));
        let line = proxy_source(&protos[i]);
        push_bytes(&mut out, line.as_slice());
        i += 1;
    }
    assert(all.subrange(0, all.len() as int) =~= all);
    out
}

} // verus!
