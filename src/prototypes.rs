//! The prototype extractor: reads the driver's entry points out of generated
//! foreign-function declarations.
use crate::hooks::ScanError;
use crate::syntax::{
    capture_bytes, capture_range, capture_text, find_capture, matches_view, query_result, run_query,
    Capture,
};
use crate::text::{byte_strings, is_prefix, owned_bytes, starts_with, trim, trimmed};
use vstd::prelude::*;
use vstd::string::StringSliceAdditionalSpecFns;

verus! {

/// Finds every function signature with its name, its parameter list and, if
/// it has one, its return type.
pub const SIGNATURE_QUERY: &'static str =
    "(function_signature_item name: (identifier) @name parameters: (parameters) @params return_type: (_)? @ret)";

/// Finds every parameter with its pattern and type, if present, and the
/// parameter list that holds it directly.
pub const PARAMETER_QUERY: &'static str =
    "(parameters (parameter pattern: (_)? @pattern type: (_)? @type) @parameter) @list";

/// The name prefix of the public driver API.
pub const DRIVER_PREFIX: &'static str = "cu";

/// The name prefix of the driver's internal ABI.
pub const INTERNAL_PREFIX: &'static str = "__cuda";

/// The parameter name used where a declaration gives none.
pub const MISSING_NAME: &'static str = "_";

/// The parameter type used where a declaration gives none.
pub const MISSING_TYPE: &'static str = "c_void";

/// The return type used where a declaration gives none.
pub const UNIT_TYPE: &'static str = "()";

/// One entry point of the driver: its name, the other names it is exported
/// under, its parameters as (name, type) pairs in order, and its return type.
pub struct Prototype {
    pub name: Vec<u8>,
    pub aliases: Vec<Vec<u8>>,
    pub args: Vec<(Vec<u8>, Vec<u8>)>,
    pub ret: Vec<u8>,
}

/// The content of a [`Prototype`].
pub struct PrototypeView {
    pub name: Seq<u8>,
    pub aliases: Seq<Seq<u8>>,
    pub args: Seq<(Seq<u8>, Seq<u8>)>,
    pub ret: Seq<u8>,
}

/// The (name, type) pairs held by a list of parameters.
pub open spec fn args_view(a: Seq<(Vec<u8>, Vec<u8>)>) -> Seq<(Seq<u8>, Seq<u8>)> {
    a.map_values(|p: (Vec<u8>, Vec<u8>)| (p.0@, p.1@))
}

impl View for Prototype {
    type V = PrototypeView;

    open spec fn view(&self) -> PrototypeView {
        PrototypeView {
            name: self.name@,
            aliases: byte_strings(self.aliases@),
            args: args_view(self.args@),
            ret: self.ret@,
        }
    }
}

/// The contents of a list of prototypes.
pub open spec fn prototypes_view(v: Seq<Prototype>) -> Seq<PrototypeView> {
    v.map_values(|p: Prototype| p@)
}

/// A name of the driver's public API or of its internal ABI.
pub open spec fn is_driver_name(name: Seq<u8>) -> bool {
    is_prefix(DRIVER_PREFIX.spec_bytes(), name) || is_prefix(INTERNAL_PREFIX.spec_bytes(), name)
}

/// The (name, type) pair of the parameter matched by `pm`.
pub open spec fn parameter_of(src: Seq<u8>, pm: Seq<Capture>) -> (Seq<u8>, Seq<u8>) {
    let name = match capture_text(src, pm, 0) {
        Some(t) => t,
        None => MISSING_NAME.spec_bytes(),
    };
    let ty = match capture_text(src, pm, 1) {
        Some(t) => t,
        None => MISSING_TYPE.spec_bytes(),
    };
    (name, ty)
}

/// The parameters, in order, that the parameter matches `pms` place directly
/// in the parameter list spanning `list`.
pub open spec fn parameters_of(src: Seq<u8>, list: (int, int), pms: Seq<Seq<Capture>>) -> Seq<
    (Seq<u8>, Seq<u8>),
>
    decreases pms.len(),
{
    if pms.len() == 0 {
        seq![]
    } else {
        let rest = parameters_of(src, list, pms.drop_last());
        if find_capture(pms.last(), 3) == Some(list) {
            rest.push(parameter_of(src, pms.last()))
        } else {
            rest
        }
    }
}

/// The return type of the signature matched by `m`, without surrounding
/// blanks.
pub open spec fn return_type_of(src: Seq<u8>, m: Seq<Capture>) -> Seq<u8> {
    match capture_text(src, m, 2) {
        Some(t) => trim(t),
        None => UNIT_TYPE.spec_bytes(),
    }
}

/// The prototype that the signature match `m` declares, where its name is a
/// driver name.
pub open spec fn prototype_of(src: Seq<u8>, m: Seq<Capture>, pms: Seq<Seq<Capture>>) -> Option<
    PrototypeView,
> {
    match (capture_text(src, m, 0), find_capture(m, 1)) {
        (Some(name), Some(list)) => if is_driver_name(name) {
            Some(
                PrototypeView {
                    name,
                    aliases: seq![],
                    args: parameters_of(src, list, pms),
                    ret: return_type_of(src, m),
                },
            )
        } else {
            None
        },
        _ => None,
    }
}

/// The prototypes that the signature matches `sigs` declare, in order.
pub open spec fn prototypes_of(src: Seq<u8>, sigs: Seq<Seq<Capture>>, pms: Seq<Seq<Capture>>) -> Seq<
    PrototypeView,
>
    decreases sigs.len(),
{
    if sigs.len() == 0 {
        seq![]
    } else {
        let rest = prototypes_of(src, sigs.drop_last(), pms);
        match prototype_of(src, sigs.last(), pms) {
            Some(p) => rest.push(p),
            None => rest,
        }
    }
}

/// Whether `name` is a driver name.
pub fn driver_name(name: &[u8]) -> (r: bool)
    ensures
        r == is_driver_name(name@),
{
    starts_with(name, DRIVER_PREFIX.as_bytes()) || starts_with(name, INTERNAL_PREFIX.as_bytes())
}

/// The parameters that the parameter matches `pms` place directly in the
/// parameter list spanning `list`.
pub fn parameter_list(src: &[u8], list: (usize, usize), pms: &Vec<Vec<Capture>>) -> (r: Vec<
    (Vec<u8>, Vec<u8>),
>)
    ensures
        args_view(r@) == parameters_of(src@, (list.0 as int, list.1 as int), matches_view(pms@)),
{
    let ghost span = (list.0 as int, list.1 as int);
    let ghost all = matches_view(pms@);
    let mut out: Vec<(Vec<u8>, Vec<u8>)> = Vec::new();
    let mut i: usize = 0;
    while i < pms.len()
        invariant
            i <= pms@.len(),
            all == matches_view(pms@),
            span == (list.0 as int, list.1 as int),
            args_view(out@) == parameters_of(src@, span, all.subrange(0, i as int)),
        decreases pms.len() - i,
    {
        assert(all.subrange(0, i + 1).drop_last() =~= all.subrange(0, i as int));
        let ghost before = out@;
        let pm = &pms[i];
        let owner = capture_range(pm, 3);
        if let Some((start, end)) = owner {
            if start == list.0 && end == list.1 {
                let name = match capture_bytes(src, pm, 0) {
                    Some(t) => t,
                    None => owned_bytes(MISSING_NAME.as_bytes()),
                };
                let ty = match capture_bytes(src, pm, 1) {
                    Some(t) => t,
                    None => owned_bytes(MISSING_TYPE.as_bytes()),
                };
                out.push((name, ty));
                assert(args_view(out@) =~= args_view(before).push(parameter_of(src@, all[i as int])));
            }
        }
        i += 1;
    }
    assert(all.subrange(0, all.len() as int) =~= all);
    out
}

/// The prototype that the signature match `m` declares, where its name is a
/// driver name; its parameters come from the parameter matches `pms`.
pub fn prototype_from(src: &[u8], m: &Vec<Capture>, pms: &Vec<Vec<Capture>>) -> (r: Option<
    Prototype,
>)
    ensures
        match r {
            Some(p) => prototype_of(src@, m@, matches_view(pms@)) == Some(p@),
            None => prototype_of(src@, m@, matches_view(pms@)) is None,
        },
{
    let name = match capture_bytes(src, m, 0) {
        Some(name) => name,
        None => return None,
    };
    let list = match capture_range(m, 1) {
        Some(list) => list,
        None => return None,
    };
    if !driver_name(name.as_slice()) {
        return None;
    }
    let args = parameter_list(src, list, pms);
    let ret = match capture_bytes(src, m, 2) {
        Some(t) => trimmed(t.as_slice()),
        None => owned_bytes(UNIT_TYPE.as_bytes()),
    };
    let aliases: Vec<Vec<u8>> = Vec::new();
    let p = Prototype { name, aliases, args, ret };
    assert(p@.aliases =~= Seq::<Seq<u8>>::empty());
    Some(p)
}

/// The prototypes that the signature matches `sigs` declare, in order, with
/// their parameters from the parameter matches `pms`.
pub fn prototypes_from(src: &[u8], sigs: &Vec<Vec<Capture>>, pms: &Vec<Vec<Capture>>) -> (r: Vec<
    Prototype,
>)
    ensures
        prototypes_view(r@) == prototypes_of(src@, matches_view(sigs@), matches_view(pms@)),
{
    let ghost all = matches_view(sigs@);
    let mut out: Vec<Prototype> = Vec::new();
    let mut i: usize = 0;
    while i < sigs.len()
        invariant
            i <= sigs@.len(),
            all == matches_view(sigs@),
            prototypes_view(out@) == prototypes_of(src@, all.subrange(0, i as int), matches_view(pms@)),
        decreases sigs.len() - i,
    {
        assert(all.subrange(0, i + 1).drop_last() =~= all.subrange(0, i as int));
        let ghost before = out@;
        if let Some(p) = prototype_from(src, &sigs[i], pms) {
            out.push(p);
            assert(prototypes_view(out@) =~= prototypes_view(before).push(out@.last()@));
        }
        i += 1;
    }
    assert(all.subrange(0, all.len() as int) =~= all);
    out
}

/// The prototypes of driver entry points declared in the Rust source `src`,
/// in the order of their declarations; an error where the source cannot be
/// parsed.
pub fn scan_prototype_source(src: &[u8]) -> (r: Result<Vec<Prototype>, ScanError>)
    ensures
        match (query_result(SIGNATURE_QUERY@, src@), query_result(PARAMETER_QUERY@, src@)) {
            (Some(sigs), Some(pms)) => r matches Ok(v) && prototypes_view(v@) == prototypes_of(
                src@,
                sigs,
                pms,
            ),
            _ => r is Err && r == Err::<Vec<Prototype>, ScanError>(ScanError::Unparsable),
        },
{
    let sigs = match run_query(SIGNATURE_QUERY, src) {
        Some(sigs) => sigs,
        None => return Err(ScanError::Unparsable),
    };
    let pms = match run_query(PARAMETER_QUERY, src) {
        Some(pms) => pms,
        None => return Err(ScanError::Unparsable),
    };
    Ok(prototypes_from(src, &sigs, &pms))
}

} // verus!
