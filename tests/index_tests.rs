use snip_scripts::commands::search_commands;
use snip_scripts::digest::command_id;
use snip_scripts::index::{load_command, load_library, CommandFolder, IndexError, LibraryFolder, RootScan, ScriptManager};
use snip_scripts::model::{CommandInfo, LibraryInfo};

fn info(title: &str, entry: &str) -> CommandInfo {
    CommandInfo {
        name: title.to_lowercase(),
        title: title.to_string(),
        version: 1,
        description: format!("{} description", title),
        api: 1,
        entry_point: entry.to_string(),
    }
}

fn folder(path: &str, manifest: &[u8], title: &str) -> CommandFolder {
    CommandFolder {
        folder: path.to_string(),
        manifest: Some(manifest.to_vec()),
        info: Some(info(title, "main.ts")),
        entry_point_is_file: true,
    }
}

fn lib_folder(path: &str, name: &str) -> LibraryFolder {
    LibraryFolder {
        folder: path.to_string(),
        manifest_found: true,
        info: Some(LibraryInfo { name: name.to_string(), version: 1, api: 1 }),
    }
}

#[test]
fn command_id_is_uppercase_hex_sha256() {
    assert_eq!(
        command_id(b"abc"),
        "BA7816BF8F01CFEA414140DE5DAE2223B00361A396177A9CB410FF61F20015AD"
    );
    assert_eq!(
        command_id(b""),
        "E3B0C44298FC1C149AFBF4C8996FB92427AE41E4649B934CA495991B7852B855"
    );
}

#[test]
fn command_id_is_deterministic_and_tells_manifests_apart() {
    let a = br#"{"name":"echo","title":"Echo"}"#;
    let b = br#"{"name":"echo","title":"Echo"}"#;
    let c = br#"{"name":"echo","title":"Echo!"}"#;
    assert_eq!(command_id(a), command_id(b));
    assert_ne!(command_id(a), command_id(c));
    assert_eq!(command_id(a).len(), 64);
}

#[test]
fn load_command_reports_each_error() {
    let mut f = folder("/s/commands/echo", b"{}", "Echo");
    f.manifest = None;
    assert_eq!(load_command(&f).err(), Some(IndexError::ManifestMissing));
    let mut f = folder("/s/commands/echo", b"{}", "Echo");
    f.info = None;
    assert_eq!(load_command(&f).err(), Some(IndexError::ManifestInvalid));
    let mut f = folder("/s/commands/echo", b"{}", "Echo");
    f.entry_point_is_file = false;
    assert_eq!(load_command(&f).err(), Some(IndexError::EntryPointMissing));
    let c = load_command(&folder("/s/commands/echo", b"abc", "Echo")).ok().unwrap();
    assert_eq!(c.id, "BA7816BF8F01CFEA414140DE5DAE2223B00361A396177A9CB410FF61F20015AD");
    assert_eq!(c.get_location(), "/s/commands/echo");
    assert_eq!(c.info.title, "Echo");
}

#[test]
fn load_library_reports_each_error() {
    let mut f = lib_folder("/s/library/utils", "utils");
    f.manifest_found = false;
    assert_eq!(load_library(&f).err(), Some(IndexError::ManifestMissing));
    let mut f = lib_folder("/s/library/utils", "utils");
    f.info = None;
    assert_eq!(load_library(&f).err(), Some(IndexError::ManifestInvalid));
    let l = load_library(&lib_folder("/s/library/utils", "utils")).ok().unwrap();
    assert_eq!(l.get_location(), "/s/library/utils");
    assert_eq!(l.info.name, "utils");
}

#[test]
fn scan_skips_command_without_manifest() {
    let mut m = ScriptManager::new();
    let mut missing = folder("/s/commands/broken", b"", "Broken");
    missing.manifest = None;
    missing.info = None;
    let scan = RootScan {
        commands: vec![missing, folder("/s/commands/echo", b"echo manifest", "Echo")],
        libraries: vec![],
    };
    m.add_location("/s".to_string(), &scan);
    assert!(search_commands(&m, "").is_empty());
    let found = search_commands(&m, "e");
    assert_eq!(found.len(), 1);
    assert_eq!(found[0].command.title, "Echo");
    assert!(search_commands(&m, "Broken").is_empty());
    assert!(m.find_command_by_id(&command_id(b"echo manifest")).is_some());
}

#[test]
fn identical_manifests_keep_one_command_last_scanned_wins() {
    let mut m = ScriptManager::new();
    let bytes = br#"{"name":"same"}"#;
    let scan = RootScan {
        commands: vec![folder("/s/commands/a", bytes, "Same"), folder("/s/commands/b", bytes, "Same")],
        libraries: vec![],
    };
    m.add_location("/s".to_string(), &scan);
    let id = command_id(bytes);
    let c = m.find_command_by_id(&id).unwrap();
    assert_eq!(c.get_location(), "/s/commands/b");
    assert_eq!(m.find_commands_by_title("Same").len(), 1);
}

#[test]
fn find_command_by_id_misses_unknown_id() {
    let m = ScriptManager::new();
    assert!(m.find_command_by_id("00").is_none());
}

#[test]
fn search_ranks_by_score_and_reports_indices() {
    let mut m = ScriptManager::new();
    let scan = RootScan {
        commands: vec![
            folder("/s/commands/x", b"x", "Sort lines"),
            folder("/s/commands/e", b"e", "Echo"),
            folder("/s/commands/u", b"u", "Uppercase"),
        ],
        libraries: vec![],
    };
    m.add_location("/s".to_string(), &scan);
    let results = m.find_commands_by_title("ec");
    assert!(!results.is_empty());
    for w in results.windows(2) {
        assert!(w[0].score >= w[1].score);
    }
    let echo = results.iter().find(|r| r.command.info.title == "Echo").unwrap();
    assert_eq!(echo.matched_indices, vec![0, 1]);
    assert!(results.iter().all(|r| r.command.info.title != "Uppercase" || !r.matched_indices.is_empty()));
}

#[test]
fn reload_replaces_entries_of_the_root() {
    let mut m = ScriptManager::new();
    let first = RootScan {
        commands: vec![folder("/s/commands/old", b"old", "Old")],
        libraries: vec![lib_folder("/s/library/utils", "utils")],
    };
    m.add_location("/s".to_string(), &first);
    let other = RootScan { commands: vec![folder("/t/commands/keep", b"keep", "Keep")], libraries: vec![] };
    m.add_location("/t".to_string(), &other);
    let second = RootScan { commands: vec![folder("/s/commands/new", b"new", "New")], libraries: vec![] };
    m.reload_location(0, &second);
    assert!(m.find_command_by_id(&command_id(b"old")).is_none());
    assert!(m.find_command_by_id(&command_id(b"new")).is_some());
    assert!(m.find_command_by_id(&command_id(b"keep")).is_some());
    assert!(m.get_libraries_snapshot().get("utils").is_none());
}

#[test]
fn scoped_libraries_are_keyed_by_manifest_name() {
    let mut m = ScriptManager::new();
    let scan = RootScan {
        commands: vec![],
        libraries: vec![lib_folder("/s/library/@scope/utils", "@scope/utils"), lib_folder("/s/library/fmt", "fmt")],
    };
    m.add_location("/s".to_string(), &scan);
    let snap = m.get_libraries_snapshot();
    assert_eq!(snap.get("@scope/utils").unwrap().get_location(), "/s/library/@scope/utils");
    assert_eq!(snap.get("fmt").unwrap().get_location(), "/s/library/fmt");
    assert!(snap.get("utils").is_none());
}

#[test]
fn libraries_with_the_same_name_keep_the_last_scanned() {
    let mut m = ScriptManager::new();
    let scan = RootScan {
        commands: vec![],
        libraries: vec![lib_folder("/s/library/a", "shared"), lib_folder("/s/library/b", "shared")],
    };
    m.add_location("/s".to_string(), &scan);
    assert_eq!(m.get_libraries_snapshot().get("shared").unwrap().get_location(), "/s/library/b");
    assert_eq!(m.script_locations(), &vec!["/s".to_string()]);
}
