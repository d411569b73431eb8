use cuda_interposer::builder::{build_plan, find_target_dir, is_bindings_file, InterposerBuilder};
use cuda_interposer::codegen::{hook_map_source, passthrough_source, proxy_source};
use cuda_interposer::hooks::{function_names_in, marker_body, scan_hook_source, HookSet};
use cuda_interposer::prototypes::{
    parameter_list, prototype_from, prototypes_from, scan_prototype_source, Prototype,
};
use cuda_interposer::text::trimmed;
use cuda_interposer::reconcile::{passthrough_name, special_name, PrototypeList};
use cuda_interposer::runtime::{
    dispatch_route, library_candidates, real_symbol_of, LibrarySearch, Resolution, ResolveError,
    Route, SymbolCache,
};

fn b(s: &str) -> Vec<u8> {
    s.as_bytes().to_vec()
}

fn proto(name: &str, args: &[(&str, &str)], ret: &str) -> Prototype {
    Prototype {
        name: b(name),
        aliases: vec![],
        args: args.iter().map(|(n, t)| (b(n), b(t))).collect(),
        ret: b(ret),
    }
}

fn hook_set(names: &[&str]) -> HookSet {
    let mut h = HookSet::new();
    for n in names {
        h.insert(b(n));
    }
    h
}

fn text(v: &[u8]) -> String {
    String::from_utf8(v.to_vec()).unwrap()
}

const HOOKS_SRC: &str = r#"
use crate::cuda_hook;

cuda_hook! {
    pub unsafe fn cuInit(flags: c_uint) -> CUresult {
        let rc = (*__real_cuInit)(flags);
        rc
    }
}

other_macro! {
    pub unsafe fn cuNotHooked(x: u32) -> CUresult { x }
}

cuda_hook! {
    pub unsafe fn cuLaunchKernel(f: CUfunction, grid: u32) -> CUresult {
        (*__real_cuLaunchKernel)(f, grid)
    }
}
"#;

const BINDINGS_SRC: &str = r#"
pub trait Driver {
    fn cuInit(Flags: ::std::os::raw::c_uint) -> CUresult;
    fn cuStreamAddCallback(hStream: CUstream, callback: Option<unsafe fn(s: CUstream, status: CUresult)>, userData: *mut c_void, flags: u32) -> CUresult;
    fn cuNoReturn(value: i32);
    fn __cudaRegisterFatBinary(fatCubin: *mut c_void) -> *mut *mut c_void;
    fn unrelated(x: i32) -> i32;
    fn cuInit(Other: u64) -> u64;
}
"#;

#[test]
fn hook_scanner_finds_marked_functions() {
    let names = scan_hook_source(HOOKS_SRC.as_bytes()).unwrap();
    let names: Vec<String> = names.iter().map(|n| text(n)).collect();
    assert_eq!(names, vec!["cuInit".to_string(), "cuLaunchKernel".to_string()]);
}

#[test]
fn hook_scanner_skips_short_and_empty_bodies() {
    let names = scan_hook_source(b"fn f() { cuda_hook!(); cuda_hook! {} }").unwrap();
    assert!(names.is_empty());
}

#[test]
fn marker_body_strips_delimiters() {
    let src = b"cuda_hook!{fn a(){}}";
    // capture 0: the macro name, capture 1: the body with its braces
    let m = vec![(0u32, 0usize, 9usize), (1u32, 10usize, 20usize)];
    assert_eq!(marker_body(src, &m).unwrap(), b("fn a(){}"));
    let other = vec![(0u32, 0usize, 4usize), (1u32, 10usize, 20usize)];
    assert_eq!(marker_body(src, &other), None);
    let short = vec![(0u32, 0usize, 9usize), (1u32, 10usize, 11usize)];
    assert_eq!(marker_body(src, &short), None);
    let outside = vec![(0u32, 0usize, 9usize), (1u32, 10usize, 99usize)];
    assert_eq!(marker_body(src, &outside), None);
}

#[test]
fn function_names_read_the_first_capture() {
    let src = b"fn alpha() {} fn beta() {}";
    let caps = vec![vec![(0u32, 3usize, 8usize)], vec![(0u32, 17usize, 21usize)], vec![(1u32, 0usize, 2usize)]];
    let names = function_names_in(src, &caps);
    assert_eq!(names, vec![b("alpha"), b("beta")]);
}

#[test]
fn hook_set_keeps_one_of_each_name() {
    let mut h = HookSet::new();
    h.insert(b("cuA"));
    h.insert(b("cuB"));
    h.insert(b("cuA"));
    assert_eq!(h.len(), 2);
    assert!(h.contains(b"cuA"));
    assert!(!h.contains(b"cuC"));
    assert_eq!(h.names(), &vec![b("cuA"), b("cuB")]);
}

#[test]
fn hook_set_adds_sources() {
    let mut h = HookSet::new();
    h.add_source(HOOKS_SRC.as_bytes()).unwrap();
    h.add_source(HOOKS_SRC.as_bytes()).unwrap();
    assert_eq!(h.names(), &vec![b("cuInit"), b("cuLaunchKernel")]);
}

#[test]
fn empty_source_has_no_hooks() {
    assert!(scan_hook_source(b"").unwrap().is_empty());
    assert!(scan_prototype_source(b"").unwrap().is_empty());
}

#[test]
fn extractor_reads_prototypes_in_order() {
    let protos = scan_prototype_source(BINDINGS_SRC.as_bytes()).unwrap();
    let names: Vec<String> = protos.iter().map(|p| text(&p.name)).collect();
    assert_eq!(
        names,
        vec!["cuInit", "cuStreamAddCallback", "cuNoReturn", "__cudaRegisterFatBinary", "cuInit"]
    );
    assert_eq!(protos[0].args, vec![(b("Flags"), b("::std::os::raw::c_uint"))]);
    assert_eq!(protos[0].ret, b("CUresult"));
    let cb: Vec<(String, String)> =
        protos[1].args.iter().map(|(n, t)| (text(n), text(t))).collect();
    assert_eq!(
        cb,
        vec![
            ("hStream".to_string(), "CUstream".to_string()),
            ("callback".to_string(), "Option<unsafe fn(s: CUstream, status: CUresult)>".to_string()),
            ("userData".to_string(), "*mut c_void".to_string()),
            ("flags".to_string(), "u32".to_string()),
        ]
    );
    assert_eq!(protos[2].ret, b("()"));
    assert_eq!(protos[3].args, vec![(b("fatCubin"), b("*mut c_void"))]);
}

#[test]
fn parameter_list_defaults_missing_parts() {
    let src = b"(x: i32)";
    // capture 3 is the list that holds the parameter directly
    let pms = vec![
        vec![(0u32, 1usize, 2usize), (1u32, 4usize, 7usize), (2u32, 1usize, 7usize), (3u32, 0usize, 8usize)],
        vec![(2u32, 1usize, 7usize), (3u32, 0usize, 8usize)],
        vec![(0u32, 1usize, 2usize), (3u32, 0usize, 5usize)],
    ];
    let params = parameter_list(src, (0, 8), &pms);
    assert_eq!(params, vec![(b("x"), b("i32")), (b("_"), b("c_void"))]);
}

#[test]
fn prototype_from_filters_driver_names() {
    let src = b"cuX(a: i32) -> u8 other(b: i32)";
    let m = vec![(0u32, 0usize, 3usize), (1u32, 3usize, 11usize), (2u32, 15usize, 17usize)];
    let pms = vec![vec![(0u32, 4usize, 5usize), (1u32, 7usize, 10usize), (3u32, 3usize, 11usize)]];
    let p = prototype_from(src, &m, &pms).unwrap();
    assert_eq!(p.name, b("cuX"));
    assert_eq!(p.args, vec![(b("a"), b("i32"))]);
    assert_eq!(p.ret, b("u8"));
    let m2 = vec![(0u32, 18usize, 23usize), (1u32, 23usize, 31usize)];
    assert!(prototype_from(src, &m2, &pms).is_none());
}

#[test]
fn prototype_list_keeps_first_of_a_name() {
    let mut list = PrototypeList::new();
    list.add_source(BINDINGS_SRC.as_bytes()).unwrap();
    assert_eq!(list.len(), 4);
    let first = &list.prototypes()[0];
    assert_eq!(first.name, b("cuInit"));
    assert_eq!(first.args, vec![(b("Flags"), b("::std::os::raw::c_uint"))]);
    assert!(list.contains_name(b"__cudaRegisterFatBinary"));
    assert!(!list.contains_name(b"unrelated"));
}

#[test]
fn special_and_passthrough_names() {
    assert!(special_name(b"cuGetProcAddress"));
    assert!(special_name(b"cuGetProcAddress_v2"));
    assert!(!special_name(b"cuGetProcAddress_v3"));
    let hooks = hook_set(&["cuInit"]);
    assert!(!passthrough_name(&hooks, b"cuInit"));
    assert!(!passthrough_name(&hooks, b"cuGetProcAddress"));
    assert!(!passthrough_name(&hooks, b"__cudaRegisterFatBinary"));
    assert!(passthrough_name(&hooks, b"cuMemAlloc"));
}

#[test]
fn scenario_passthrough_set_and_table() {
    let mut list = PrototypeList::new();
    for n in ["cuA", "cuB", "cuC", "cuGetProcAddress"] {
        list.add(proto(n, &[], "CUresult"));
    }
    let hooks = hook_set(&["cuA"]);
    let plan = build_plan(&hooks, list);
    assert!(plan.found_prototypes);
    assert_eq!(
        text(&plan.passthroughs),
        "cuda_interposer::generate_proxy! { fn cuB([]) -> CUresult; name: cuB }\n\
         cuda_interposer::generate_proxy! { fn cuC([]) -> CUresult; name: cuC }\n"
    );
    assert_eq!(
        text(&hook_map_source(&hooks)),
        "|name: &str| {\n    match name {\n        \"cuA\" => {\n            unsafe extern \"C\" { fn cuA(); }\n            Some(cuA as *const () as *mut std::os::raw::c_void)\n        },\n        _ => None,\n    }\n}\n"
    );
}

#[test]
fn partition_on_concrete_names() {
    let names = ["cuA", "cuB", "cuGetProcAddress", "cuGetProcAddress_v2"];
    let mut list = PrototypeList::new();
    for n in names {
        list.add(proto(n, &[], "CUresult"));
    }
    let hooks = hook_set(&["cuA"]);
    let forwarded = list.passthroughs(&hooks);
    for n in names {
        let hooked = hooks.contains(n.as_bytes());
        let passed = forwarded.iter().any(|p| p.name == n.as_bytes());
        let special = special_name(n.as_bytes());
        assert_eq!([hooked, passed, special].iter().filter(|x| **x).count(), 1, "{}", n);
    }
}

#[test]
fn empty_build_reports_no_prototypes() {
    let plan = build_plan(&HookSet::new(), PrototypeList::new());
    assert!(!plan.found_prototypes);
    assert!(plan.passthroughs.is_empty());
    assert_eq!(text(&hook_map_source(&HookSet::new())), "|name: &str| {\n    match name {\n        _ => None,\n    }\n}\n");
}

#[test]
fn passthrough_keeps_signature_and_aliases() {
    let mut p = proto("cuMemAlloc_v2", &[("dptr", "*mut CUdeviceptr"), ("bytesize", "usize")], "CUresult");
    p.aliases = vec![b("cuMemAlloc"), b("cuMemAlloc_v3")];
    assert_eq!(
        text(&proxy_source(&p)),
        "cuda_interposer::generate_proxy! { fn cuMemAlloc_v2([(dptr: *mut CUdeviceptr), (bytesize: usize)]) -> CUresult; name: cuMemAlloc_v2, aliases: cuMemAlloc, cuMemAlloc_v3 }\n"
    );
    let all = passthrough_source(&vec![proto("cuX", &[("a", "u8")], "()")]);
    assert_eq!(text(&all), "cuda_interposer::generate_proxy! { fn cuX([(a: u8)]) -> (); name: cuX }\n");
    let init = passthrough_source(&vec![proto("cuInit", &[("flags", "c_uint")], "CUresult")]);
    assert_eq!(
        text(&init),
        "cuda_interposer::generate_proxy! { fn cuInit([(flags: c_uint)]) -> CUresult; name: cuInit }\n"
    );
    let mut sync = proto("cuCtxSynchronize", &[], "CUresult");
    sync.aliases = vec![b("cuCtxSynchronize_ptsz")];
    assert_eq!(
        text(&passthrough_source(&vec![sync])),
        "cuda_interposer::generate_proxy! { fn cuCtxSynchronize([]) -> CUresult; name: cuCtxSynchronize, aliases: cuCtxSynchronize_ptsz }\n"
    );
}

#[test]
fn hook_map_has_one_arm_per_hook() {
    let hooks = hook_set(&["cuInit", "cuLaunchKernel"]);
    let src = text(&hook_map_source(&hooks));
    assert_eq!(src.matches("\" => {").count(), 2);
    assert!(src.contains("        \"cuInit\" => {\n            unsafe extern \"C\" { fn cuInit(); }\n            Some(cuInit as *const () as *mut std::os::raw::c_void)\n        },\n"));
    assert!(src.contains("Some(cuLaunchKernel as *const () as *mut std::os::raw::c_void)"));
    assert!(src.contains("_ => None,"));
}

#[test]
fn search_skips_absent_paths() {
    let mut search = LibrarySearch::new(vec![b("/absent/libcuda.so"), b("/present/libcuda.so")]);
    assert_eq!(search.next_path(), Some(&b("/absent/libcuda.so")));
    search.record(false);
    assert_eq!(search.opened(), None);
    assert_eq!(search.next_path(), Some(&b("/present/libcuda.so")));
    search.record(true);
    assert_eq!(search.opened(), Some(1));
    assert_eq!(search.next_path(), None);
}

#[test]
fn search_over_when_nothing_opens() {
    let mut search = LibrarySearch::new(vec![b("/a")]);
    search.record(false);
    assert_eq!(search.next_path(), None);
    assert_eq!(search.opened(), None);
    assert_eq!(search.paths(), &vec![b("/a")]);
}

#[test]
fn root_override_is_tried_first() {
    let paths = library_candidates(Some(b"/opt/cuda"));
    let paths: Vec<String> = paths.iter().map(|p| text(p)).collect();
    assert_eq!(
        paths,
        vec![
            "/opt/cuda/compat/libcuda.so",
            "/usr/local/cuda/compat/libcuda.so",
            "/usr/lib/x86_64-linux-gnu/libcuda.so",
            "/usr/lib64/libcuda.so",
            "/usr/local/cuda/targets/x86_64-linux/lib/stubs/libcuda.so",
        ]
    );
    assert_eq!(library_candidates(None).len(), 4);
}

#[test]
fn missing_symbol_names_it_and_leaves_others() {
    let mut cache = SymbolCache::new();
    assert_eq!(cache.complete(b"cuInit", Some(0x1000)), Ok(0x1000));
    assert_eq!(cache.complete(b"Z", None), Err(ResolveError::MissingSymbol(b("Z"))));
    assert_eq!(cache.resolution(b"cuInit"), Resolution::Cached(0x1000));
    assert_eq!(cache.resolution(b"Z"), Resolution::Lookup);
}

#[test]
fn resolved_symbol_is_not_looked_up_again() {
    let mut cache = SymbolCache::new();
    assert_eq!(cache.resolution(b"cuMemAlloc"), Resolution::Lookup);
    cache.complete(b"cuMemAlloc", Some(42)).unwrap();
    for _ in 0..100 {
        assert_eq!(cache.resolution(b"cuMemAlloc"), Resolution::Cached(42));
    }
}

#[test]
fn aliases_resolve_the_primary_symbol() {
    let mut p = proto("cuCtxCreate_v2", &[], "CUresult");
    p.aliases = vec![b("cuCtxCreate")];
    assert_eq!(real_symbol_of(&p, b"cuCtxCreate"), Some(&b("cuCtxCreate_v2")));
    assert_eq!(real_symbol_of(&p, b"cuCtxCreate_v2"), Some(&b("cuCtxCreate_v2")));
    assert_eq!(real_symbol_of(&p, b"cuCtxDestroy"), None);
}

#[test]
fn dispatch_answers_hooked_names_itself() {
    let hooks = hook_set(&["cuLaunchKernel"]);
    assert_eq!(dispatch_route(&hooks, b"cuLaunchKernel"), Route::Override);
    assert_eq!(dispatch_route(&hooks, b"cuMemcpy"), Route::Forward);
}

#[test]
fn target_dir_is_three_levels_up() {
    let t = find_target_dir(&"/work/target/debug/build/pkg-1234/out".to_string());
    assert_eq!(t, "/work/target/debug");
    assert_eq!(find_target_dir(&"/a".to_string()), "/");
}

#[test]
fn builder_directories() {
    let bld = InterposerBuilder::new("/pkg".to_string(), "/pkg/target/debug/build/x/out".to_string());
    assert_eq!(bld.src_dir(), "/pkg/src");
    assert_eq!(bld.target_dir(), "/pkg/target/debug");
    let bld = bld.with_src("/elsewhere/hooks".to_string());
    assert_eq!(bld.src_dir(), "/elsewhere/hooks");
    assert_eq!(bld.out_dir(), "/pkg/target/debug/build/x/out");
    assert_eq!(bld.manifest_dir(), "/pkg");
}

#[test]
fn bindings_file_name() {
    assert!(is_bindings_file(b"driver_internal_sys.rs"));
    assert!(!is_bindings_file(b"driver_sys.rs"));
}

#[test]
fn trimming_removes_surrounding_blanks_only() {
    assert_eq!(trimmed(b"  \t*mut c_void \r\n"), b("*mut c_void"));
    assert_eq!(trimmed(b"CUresult"), b("CUresult"));
    assert_eq!(trimmed(b" \n "), b(""));
    assert_eq!(trimmed(b""), b(""));
}

#[test]
fn prototypes_from_given_captures() {
    let src = b"cuX(a: i32) ->  u8  ;other(b: i32)";
    let sigs = vec![
        vec![(0u32, 0usize, 3usize), (1u32, 3usize, 11usize), (2u32, 14usize, 19usize)],
        vec![(0u32, 21usize, 26usize), (1u32, 26usize, 34usize)],
        vec![(0u32, 0usize, 3usize), (1u32, 3usize, 11usize)],
    ];
    let pms = vec![vec![(0u32, 4usize, 5usize), (1u32, 7usize, 10usize), (3u32, 3usize, 11usize)]];
    let protos = prototypes_from(src, &sigs, &pms);
    assert_eq!(protos.len(), 2);
    assert_eq!(protos[0].name, b("cuX"));
    assert_eq!(protos[0].ret, b("u8"));
    assert_eq!(protos[0].args, vec![(b("a"), b("i32"))]);
    assert_eq!(protos[1].ret, b("()"));
}
