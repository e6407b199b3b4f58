use snip_scripts::index::{LibraryFolder, RootScan, ScriptManager};
use snip_scripts::model::{Command, CommandInfo, LibraryInfo};
use snip_scripts::paths::{join_segments, normalize_segments, split_segments};
use snip_scripts::resolver::{
    kind_for_media_type, load_module_from_file, media_kind, transpile_extension, MediaKind, ModuleRequest, ResolveError,
    SnipModuleLoader,
};

fn manager_with_scope_utils() -> ScriptManager {
    let mut m = ScriptManager::new();
    let scan = RootScan {
        commands: vec![],
        libraries: vec![LibraryFolder {
            folder: "/s/library/@scope/utils".to_string(),
            manifest_found: true,
            info: Some(LibraryInfo { name: "@scope/utils".to_string(), version: 1, api: 1 }),
        }],
    };
    m.add_location("/s".to_string(), &scan);
    m
}

fn loader() -> SnipModuleLoader {
    let m = manager_with_scope_utils();
    SnipModuleLoader::new("/s/commands/echo".to_string(), m.get_libraries_snapshot())
}

#[test]
fn paths_split_normalize_and_join() {
    let segs = split_segments("/a/./b/../c//d");
    assert_eq!(segs, vec!["", "a", ".", "b", "..", "c", "", "d"]);
    let normal = normalize_segments(&segs);
    assert_eq!(normal, vec!["a", "c", "d"]);
    assert_eq!(join_segments(&normal), "/a/c/d");
    assert_eq!(join_segments(&normalize_segments(&split_segments("/.."))), "/");
}

#[test]
fn resolve_relative_specifier_against_referrer() {
    let l = loader();
    let r = l.resolve("./util/fmt.ts", "file:///s/commands/echo/main.ts");
    assert_eq!(r, Ok(ModuleRequest::File("/s/commands/echo/util/fmt.ts".to_string())));
    let r = l.resolve("../other/x.js", "file:///s/commands/echo/main.ts");
    assert_eq!(r, Ok(ModuleRequest::File("/s/commands/other/x.js".to_string())));
}

#[test]
fn resolve_lib_specifier_splits_scoped_name() {
    let l = loader();
    assert_eq!(
        l.resolve("lib:@scope/utils/format", "/s/commands/echo/main.ts"),
        Ok(ModuleRequest::Lib { library: "@scope/utils".to_string(), sub_path: "/format".to_string() })
    );
    assert_eq!(
        l.resolve("lib:unregistered/x", "/s/commands/echo/main.ts"),
        Ok(ModuleRequest::Lib { library: "unregistered".to_string(), sub_path: "/x".to_string() })
    );
}

#[test]
fn resolve_rejects_other_schemes() {
    let l = loader();
    assert_eq!(
        l.resolve("https://example.com/x.js", "file:///s/commands/echo/main.ts"),
        Err(ResolveError::UnsupportedScheme("https".to_string()))
    );
    assert_eq!(l.resolve("bare", "file:///s/commands/echo/main.ts"), Err(ResolveError::InvalidSpecifier));
    assert_eq!(l.resolve("./x.ts", "not a url"), Err(ResolveError::InvalidSpecifier));
}

#[test]
fn library_import_resolves_under_library_root() {
    let mut l = loader();
    let req = l.resolve("lib:@scope/utils/format", "/s/commands/echo/main.ts").unwrap();
    let plan = l.plan_load(&req).unwrap();
    assert_eq!(plan.directory, Some("/s/library/@scope/utils/format".to_string()));
    assert_eq!(plan.directory_candidates[0], "/s/library/@scope/utils/format/index");
    assert_eq!(plan.directory_candidates[1], "/s/library/@scope/utils/format/index.ts");
    assert_eq!(plan.directory_candidates.len(), 5);
    let candidates = plan.candidates;
    assert_eq!(candidates.len(), 5);
    assert_eq!(candidates[0], "/s/library/@scope/utils/format");
    assert!(candidates.contains(&"/s/library/@scope/utils/format.ts".to_string()));
    assert!(candidates.contains(&"/s/library/@scope/utils/format.js".to_string()));
    assert_eq!(l.finish_load("/s/library/@scope/utils/format.ts"), Ok(MediaKind::Transpiled));
    assert_eq!(l.finish_load("/s/library/@scope/utils/format.js"), Ok(MediaKind::JavaScript));
}

#[test]
fn unregistered_library_is_not_found() {
    let mut l = loader();
    let req = l.resolve("lib:unregistered/x", "/s/commands/echo/main.ts").unwrap();
    assert_eq!(l.plan_load(&req), Err(ResolveError::LibraryNotFound("unregistered".to_string())));
}

#[test]
fn library_added_after_snapshot_stays_unknown() {
    let mut m = ScriptManager::new();
    let snapshot = m.get_libraries_snapshot();
    let mut l = SnipModuleLoader::new("/s/commands/echo".to_string(), snapshot);
    let scan = RootScan {
        commands: vec![],
        libraries: vec![LibraryFolder {
            folder: "/s/library/late".to_string(),
            manifest_found: true,
            info: Some(LibraryInfo { name: "late".to_string(), version: 1, api: 1 }),
        }],
    };
    m.add_location("/s".to_string(), &scan);
    assert!(m.get_libraries_snapshot().get("late").is_some());
    let req = l.resolve("lib:late/index", "/s/commands/echo/main.ts").unwrap();
    assert_eq!(l.plan_load(&req), Err(ResolveError::LibraryNotFound("late".to_string())));
}

#[test]
fn paths_outside_the_allowlist_are_sandbox_violations() {
    let mut l = loader();
    assert_eq!(l.finish_load("/etc/passwd.js"), Err(ResolveError::SandboxViolation));
    assert_eq!(l.finish_load("/s/commands/echo/../other/x.js"), Err(ResolveError::SandboxViolation));
    assert_eq!(l.finish_load("/s/commands/echoes/x.js"), Err(ResolveError::SandboxViolation));
    assert_eq!(l.plan_load(&ModuleRequest::File("/etc/passwd".to_string())), Err(ResolveError::SandboxViolation));
    let escape = l.resolve("../../../../etc/passwd", "file:///s/commands/echo/main.ts").unwrap();
    assert_eq!(escape, ModuleRequest::File("/etc/passwd".to_string()));
    assert_eq!(l.plan_load(&escape), Err(ResolveError::SandboxViolation));
    assert_eq!(l.finish_load("/s/library/@scope/utils/format.ts"), Err(ResolveError::SandboxViolation));
}

#[test]
fn own_files_probe_extensions_in_order() {
    let mut l = loader();
    let c = l.plan_load(&ModuleRequest::File("/s/commands/echo/helper".to_string())).unwrap().candidates;
    assert_eq!(
        c,
        vec![
            "/s/commands/echo/helper.ts",
            "/s/commands/echo/helper.tsx",
            "/s/commands/echo/helper.js",
            "/s/commands/echo/helper.jsx"
        ]
    );
    let c = l.plan_load(&ModuleRequest::File("/s/commands/echo/main.ts".to_string())).unwrap().candidates;
    assert_eq!(c, vec!["/s/commands/echo/main.ts"]);
    assert_eq!(l.finish_load("/s/commands/echo/data.json"), Err(ResolveError::UnsupportedMediaType));
}

#[test]
fn media_kinds_by_extension() {
    assert_eq!(media_kind("a.ts"), Some(MediaKind::Transpiled));
    assert_eq!(media_kind("a.tsx"), Some(MediaKind::Transpiled));
    assert_eq!(media_kind("a.d.mts"), Some(MediaKind::Transpiled));
    assert_eq!(media_kind("a.jsx"), Some(MediaKind::Transpiled));
    assert_eq!(media_kind("a.mjs"), Some(MediaKind::JavaScript));
    assert_eq!(media_kind("a.cjs"), Some(MediaKind::JavaScript));
    assert_eq!(media_kind("a"), None);
    assert_eq!(media_kind("a.json"), None);
}

#[test]
fn entry_module_specifier_joins_folder_and_entry_point() {
    let c = Command {
        id: "X".to_string(),
        location: "/s/commands/echo".to_string(),
        info: CommandInfo {
            name: "echo".to_string(),
            title: "Echo".to_string(),
            version: 1,
            description: String::new(),
            api: 1,
            entry_point: "./src/main.ts".to_string(),
        },
    };
    assert_eq!(c.get_deno_module_specifier(), Ok("file:///s/commands/echo/src/main.ts".to_string()));
}

#[test]
fn media_type_names_map_to_kinds() {
    assert_eq!(kind_for_media_type("TypeScript"), Some(MediaKind::Transpiled));
    assert_eq!(kind_for_media_type("TSX"), Some(MediaKind::Transpiled));
    assert_eq!(kind_for_media_type("Dts"), Some(MediaKind::Transpiled));
    assert_eq!(kind_for_media_type("Cjs"), Some(MediaKind::JavaScript));
    assert_eq!(kind_for_media_type("Json"), None);
    assert_eq!(kind_for_media_type("Unknown"), None);
    assert_eq!(media_kind("/x/A.TS"), Some(MediaKind::Transpiled));
}

#[test]
fn typescript_sources_are_transpiled() {
    let out = load_module_from_file("/s/commands/echo/main.ts", "const x: number = 1;\nexport default x;\n".to_string()).unwrap();
    assert!(out.contains("const x = 1"));
    assert!(!out.contains(": number"));
    let js = "export default function () {}\n".to_string();
    assert_eq!(load_module_from_file("/s/commands/echo/main.js", js.clone()), Ok(js));
    assert_eq!(load_module_from_file("/s/commands/echo/data.json", "{}".to_string()), Err(ResolveError::UnsupportedMediaType));
    assert_eq!(load_module_from_file("/s/commands/echo/bad.ts", "const = ;".to_string()), Err(ResolveError::TranspileFailed));
}

#[test]
fn extension_sources_are_transpiled_as_typescript() {
    let out = transpile_extension("ext:snip/index.ts", "export const a: string = 'x';").unwrap();
    assert!(out.contains("export const a = 'x'") || out.contains("export const a = \"x\""));
    assert_eq!(transpile_extension("not a url", "export const a = 1;"), Err(ResolveError::TranspileFailed));
}

#[test]
fn probing_replaces_an_unknown_extension() {
    let mut l = loader();
    let c = l.plan_load(&ModuleRequest::File("/s/commands/echo/b.v2".to_string())).unwrap().candidates;
    assert_eq!(
        c,
        vec!["/s/commands/echo/b.ts", "/s/commands/echo/b.tsx", "/s/commands/echo/b.js", "/s/commands/echo/b.jsx"]
    );
    let c = l.plan_load(&ModuleRequest::File("/s/commands/echo/.hidden".to_string())).unwrap().candidates;
    assert_eq!(c[0], "/s/commands/echo/.hidden.ts");
}

#[test]
fn library_paths_may_not_climb_out() {
    let mut l = loader();
    let req = l.resolve("lib:@scope/utils/../../../commands/x", "file:///s/commands/echo/main.ts").unwrap();
    assert_eq!(l.plan_load(&req), Err(ResolveError::SandboxViolation));
    assert_eq!(l.finish_load("/s/library/@scope/utils/format.ts"), Err(ResolveError::SandboxViolation));
}

#[test]
fn file_urls_are_percent_decoded() {
    let l = loader();
    assert_eq!(
        l.resolve("./a%20b.ts", "file:///s/commands/echo/main.ts"),
        Ok(ModuleRequest::File("/s/commands/echo/a b.ts".to_string()))
    );
    assert_eq!(
        l.resolve("file:///s/commands/echo/x.js", "file:///s/commands/echo/main.ts"),
        Ok(ModuleRequest::File("/s/commands/echo/x.js".to_string()))
    );
}

#[test]
fn library_roots_are_normalised_before_the_sandbox_check() {
    let mut m = ScriptManager::new();
    let scan = RootScan {
        commands: vec![],
        libraries: vec![LibraryFolder {
            folder: "/s/extra/../library/fmt".to_string(),
            manifest_found: true,
            info: Some(LibraryInfo { name: "fmt".to_string(), version: 1, api: 1 }),
        }],
    };
    m.add_location("/s".to_string(), &scan);
    let mut l = SnipModuleLoader::new("/s/commands/./echo".to_string(), m.get_libraries_snapshot());
    let req = l.resolve("lib:fmt/pad", "file:///s/commands/echo/main.ts").unwrap();
    let plan = l.plan_load(&req).unwrap();
    assert_eq!(plan.candidates[1], "/s/library/fmt/pad.ts");
    assert_eq!(l.finish_load("/s/library/fmt/pad.ts"), Ok(MediaKind::Transpiled));
    assert_eq!(l.finish_load("/s/commands/echo/main.ts"), Ok(MediaKind::Transpiled));
}

#[test]
fn byte_order_marks_are_dropped_before_transpiling() {
    let out = load_module_from_file("/s/commands/echo/main.ts", "\u{FEFF}const x: number = 1;\n".to_string()).unwrap();
    assert!(out.contains("const x = 1"));
    assert!(!out.contains('\u{FEFF}'));
    let ext = transpile_extension("ext:snip/a.ts", "\u{FEFF}\u{FEFF}export const a: number = 1;").unwrap();
    assert!(ext.contains("export const a = 1"));
}
