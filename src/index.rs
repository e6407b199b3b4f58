//! The script index: commands keyed by content id, libraries keyed by name.
use vstd::prelude::*;
use crate::digest::{command_id, command_id_of};
use crate::model::{Command, CommandInfo, Library, LibraryInfo};
use crate::text::{is_under, path_is_under, same_text};

verus! {

/// No two commands share an id.
pub open spec fn ids_unique(cmds: Seq<Command>) -> bool {
    forall|i: int, j: int|
        0 <= i < cmds.len() && 0 <= j < cmds.len() && i != j ==> cmds[i].id@ != cmds[j].id@
}

/// No two libraries share a name.
pub open spec fn names_unique(libs: Seq<Library>) -> bool {
    forall|i: int, j: int|
        0 <= i < libs.len() && 0 <= j < libs.len() && i != j ==> libs[i].info.name@
            != libs[j].info.name@
}

/// Some command in `cmds` has the id `id`.
pub open spec fn has_command_id(cmds: Seq<Command>, id: Seq<char>) -> bool {
    exists|i: int| 0 <= i < cmds.len() && cmds[i].id@ == id
}

/// Some library in `libs` has the name `name`.
pub open spec fn has_library_name(libs: Seq<Library>, name: Seq<char>) -> bool {
    exists|i: int| 0 <= i < libs.len() && libs[i].info.name@ == name
}

/// `cmds` with `c` put in place of the command that shares its id, or appended.
pub open spec fn with_command(cmds: Seq<Command>, c: Command) -> Seq<Command> {
    if has_command_id(cmds, c.id@) {
        cmds.update(choose|i: int| 0 <= i < cmds.len() && cmds[i].id@ == c.id@, c)
    } else {
        cmds.push(c)
    }
}

/// `libs` with `l` put in place of the library that shares its name, or appended.
pub open spec fn with_library(libs: Seq<Library>, l: Library) -> Seq<Library> {
    if has_library_name(libs, l.info.name@) {
        libs.update(choose|i: int| 0 <= i < libs.len() && libs[i].info.name@ == l.info.name@, l)
    } else {
        libs.push(l)
    }
}

/// What was found in one folder under `<root>/commands`: the raw manifest where
/// a manifest file was there, the manifest's fields where they parsed, and
/// whether the entry point the manifest names is a file.
pub struct CommandFolder {
    pub folder: String,
    pub manifest: Option<Vec<u8>>,
    pub info: Option<CommandInfo>,
    pub entry_point_is_file: bool,
}

/// What was found in one library folder: whether it holds a manifest file, and
/// the manifest's fields where they parsed.
pub struct LibraryFolder {
    pub folder: String,
    pub manifest_found: bool,
    pub info: Option<LibraryInfo>,
}

/// Everything a scan of one script root found.
pub struct RootScan {
    pub commands: Vec<CommandFolder>,
    pub libraries: Vec<LibraryFolder>,
}

/// A folder under `<root>/library` whose name starts with `@` holds the
/// libraries of a scope, one level deeper.
pub fn is_scope_folder(name: &str) -> (r: bool)
    ensures
        r == (name@.len() > 0 && name@[0] == '@'),
{
    name.unicode_len() > 0 && name.get_char(0) == '@'
}

/// Why a folder was skipped by a scan.
#[derive(Debug, PartialEq, Eq)]
pub enum IndexError {
    ManifestMissing,
    ManifestInvalid,
    EntryPointMissing,
}

/// Manifests this large cannot be digested.
pub open spec fn manifest_fits(f: CommandFolder) -> bool {
    f.manifest is Some ==> f.manifest->0@.len() < 0x2000_0000_0000_0000
}

/// Why the command folder `f` is skipped, if it is.
pub open spec fn command_folder_error(f: CommandFolder) -> Option<IndexError> {
    if f.manifest is None {
        Some(IndexError::ManifestMissing)
    } else if f.info is None {
        Some(IndexError::ManifestInvalid)
    } else if !f.entry_point_is_file {
        Some(IndexError::EntryPointMissing)
    } else {
        None
    }
}

/// `c` is the command that the folder `f` yields.
pub open spec fn loads_as(f: CommandFolder, c: Command) -> bool {
    &&& command_folder_error(f) is None
    &&& c.id@ == command_id_of(f.manifest->0@)
    &&& c.location == f.folder
    &&& c.info == f.info->0
}

/// Why the library folder `f` is skipped, if it is.
pub open spec fn library_folder_error(f: LibraryFolder) -> Option<IndexError> {
    if !f.manifest_found {
        Some(IndexError::ManifestMissing)
    } else if f.info is None {
        Some(IndexError::ManifestInvalid)
    } else {
        None
    }
}

/// `l` is the library that the folder `f` yields.
pub open spec fn library_loads_as(f: LibraryFolder, l: Library) -> bool {
    &&& library_folder_error(f) is None
    &&& l.location == f.folder
    &&& l.info == f.info->0
}

/// Builds the command that a scanned folder describes, or says why it is skipped.
pub fn load_command(f: &CommandFolder) -> (r: Result<Command, IndexError>)
    requires
        manifest_fits(*f),
    ensures
        match r {
            Ok(c) => loads_as(*f, c),
            Err(e) => command_folder_error(*f) == Some(e),
        },
{
    match &f.manifest {
        None => Err(IndexError::ManifestMissing),
        Some(bytes) => match &f.info {
            None => Err(IndexError::ManifestInvalid),
            Some(info) => {
                if !f.entry_point_is_file {
                    Err(IndexError::EntryPointMissing)
                } else {
                    let id = command_id(bytes.as_slice());
                    Ok(Command { id, location: f.folder.clone(), info: info.duplicate() })
                }
            },
        },
    }
}

/// Builds the library that a scanned folder describes, or says why it is skipped.
pub fn load_library(f: &LibraryFolder) -> (r: Result<Library, IndexError>)
    ensures
        match r {
            Ok(l) => library_loads_as(*f, l),
            Err(e) => library_folder_error(*f) == Some(e),
        },
{
    if !f.manifest_found {
        return Err(IndexError::ManifestMissing);
    }
    match &f.info {
        None => Err(IndexError::ManifestInvalid),
        Some(info) => Ok(
            Library {
                location: f.folder.clone(),
                info: LibraryInfo { name: info.name.clone(), version: info.version, api: info.api },
            },
        ),
    }
}

/// What `with_command` keeps and adds.
pub proof fn lemma_with_command(s: Seq<Command>, c: Command)
    requires
        ids_unique(s),
    ensures
        ids_unique(with_command(s, c)),
        has_command_id(with_command(s, c), c.id@),
        forall|i: int|
            0 <= i < with_command(s, c).len() ==> with_command(s, c)[i] == c || s.contains(
                with_command(s, c)[i],
            ),
        forall|id: Seq<char>| has_command_id(s, id) ==> has_command_id(with_command(s, c), id),
        forall|i: int|
            0 <= i < s.len() && s[i].id@ != c.id@ ==> #[trigger] with_command(s, c)[i] == s[i],
        exists|i: int| 0 <= i < with_command(s, c).len() && with_command(s, c)[i] == c,
{
    let r = with_command(s, c);
    if has_command_id(s, c.id@) {
        let m = choose|i: int| 0 <= i < s.len() && s[i].id@ == c.id@;
        assert(r[m] == c);
        assert forall|i: int| 0 <= i < r.len() implies r[i] == c || s.contains(r[i]) by {
            if i != m {
                assert(r[i] == s[i]);
            }
        }
        assert forall|id: Seq<char>| has_command_id(s, id) implies has_command_id(r, id) by {
            let p = choose|p: int| 0 <= p < s.len() && s[p].id@ == id;
            assert(r[p].id@ == id);
        }
    } else {
        assert(r[s.len() as int] == c);
        assert forall|i: int| 0 <= i < r.len() implies r[i] == c || s.contains(r[i]) by {
            if i < s.len() {
                assert(r[i] == s[i]);
            }
        }
        assert forall|id: Seq<char>| has_command_id(s, id) implies has_command_id(r, id) by {
            let p = choose|p: int| 0 <= p < s.len() && s[p].id@ == id;
            assert(r[p] == s[p]);
        }
    }
}

/// What `with_library` keeps and adds.
pub proof fn lemma_with_library(s: Seq<Library>, l: Library)
    requires
        names_unique(s),
    ensures
        names_unique(with_library(s, l)),
        has_library_name(with_library(s, l), l.info.name@),
        forall|i: int|
            0 <= i < with_library(s, l).len() ==> with_library(s, l)[i] == l || s.contains(
                with_library(s, l)[i],
            ),
        forall|n: Seq<char>|
            has_library_name(s, n) ==> has_library_name(with_library(s, l), n),
        forall|i: int|
            0 <= i < s.len() && s[i].info.name@ != l.info.name@ ==> #[trigger] with_library(s, l)[i]
                == s[i],
        exists|i: int| 0 <= i < with_library(s, l).len() && with_library(s, l)[i] == l,
{
    let r = with_library(s, l);
    if has_library_name(s, l.info.name@) {
        let m = choose|i: int| 0 <= i < s.len() && s[i].info.name@ == l.info.name@;
        assert(r[m] == l);
        assert forall|i: int| 0 <= i < r.len() implies r[i] == l || s.contains(r[i]) by {
            if i != m {
                assert(r[i] == s[i]);
            }
        }
        assert forall|n: Seq<char>| has_library_name(s, n) implies has_library_name(r, n) by {
            let p = choose|p: int| 0 <= p < s.len() && s[p].info.name@ == n;
            assert(r[p].info.name@ == n);
        }
    } else {
        assert(r[s.len() as int] == l);
        assert forall|i: int| 0 <= i < r.len() implies r[i] == l || s.contains(r[i]) by {
            if i < s.len() {
                assert(r[i] == s[i]);
            }
        }
        assert forall|n: Seq<char>| has_library_name(s, n) implies has_library_name(r, n) by {
            let p = choose|p: int| 0 <= p < s.len() && s[p].info.name@ == n;
            assert(r[p] == s[p]);
        }
    }
}

/// Every command of `after` was loaded from a folder of `scan`, or was in
/// `before` and lies outside `root`; every command loaded by `scan` is found by
/// its id in `after`; every command of `before` outside `root` keeps its id in
/// `after`. (A later folder with the same id wins: see `insert_command`.)
pub open spec fn commands_rescanned(
    before: Seq<Command>,
    after: Seq<Command>,
    root: Seq<char>,
    scan: Seq<CommandFolder>,
) -> bool {
    &&& forall|i: int|
        0 <= i < after.len() ==> (exists|j: int| 0 <= j < scan.len() && loads_as(scan[j], after[i]))
            || (before.contains(after[i]) && !is_under(after[i].location@, root))
    &&& forall|j: int|
        0 <= j < scan.len() && command_folder_error(scan[j]) is None ==> has_command_id(
            after,
            command_id_of(scan[j].manifest->0@),
        )
    &&& forall|k: int|
        0 <= k < before.len() && !is_under(before[k].location@, root) ==> has_command_id(
            after,
            before[k].id@,
        )
}

/// The folder `j` of `scan` yields a command and no later folder yields one
/// with the same id.
pub open spec fn last_with_its_id(scan: Seq<CommandFolder>, j: int, upto: int) -> bool {
    &&& command_folder_error(scan[j]) is None
    &&& forall|k: int|
        j < k < upto && command_folder_error(scan[k]) is None ==> command_id_of(
            scan[k].manifest->0@,
        ) != command_id_of(scan[j].manifest->0@)
}

/// Of the folders of `scan` that share an id, the last one scanned is the one
/// that `after` holds.
pub open spec fn last_scanned_wins(after: Seq<Command>, scan: Seq<CommandFolder>) -> bool {
    forall|j: int|
        0 <= j < scan.len() && last_with_its_id(scan, j, scan.len() as int) ==> exists|i: int|
            0 <= i < after.len() && loads_as(scan[j], after[i])
}

/// Two folders whose manifests hold the same bytes get the same id, and the
/// index keeps exactly one command under it: the one from the folder scanned
/// last.
pub proof fn lemma_identical_manifests_keep_one(
    after: Seq<Command>,
    scan: Seq<CommandFolder>,
    a: int,
    b: int,
)
    requires
        ids_unique(after),
        last_scanned_wins(after, scan),
        0 <= a < b < scan.len(),
        command_folder_error(scan[a]) is None,
        scan[a].manifest->0@ == scan[b].manifest->0@,
        last_with_its_id(scan, b, scan.len() as int),
    ensures
        exists|i: int|
            0 <= i < after.len() && loads_as(scan[b], after[i]) && forall|k: int|
                0 <= k < after.len() && after[k].id@ == command_id_of(scan[a].manifest->0@)
                    ==> k == i,
{
    let i = choose|i: int| 0 <= i < after.len() && loads_as(scan[b], after[i]);
    assert(after[i].id@ == command_id_of(scan[a].manifest->0@));
}

/// The library folder `j` of `scan` yields a library and no later folder
/// yields one with the same name.
pub open spec fn last_with_its_name(scan: Seq<LibraryFolder>, j: int, upto: int) -> bool {
    &&& library_folder_error(scan[j]) is None
    &&& forall|k: int|
        j < k < upto && library_folder_error(scan[k]) is None ==> scan[k].info->0.name@
            != scan[j].info->0.name@
}

/// Of the library folders of `scan` that share a name, the last one scanned
/// is the one that `after` holds.
pub open spec fn last_library_wins(after: Seq<Library>, scan: Seq<LibraryFolder>) -> bool {
    forall|j: int|
        0 <= j < scan.len() && last_with_its_name(scan, j, scan.len() as int) ==> exists|i: int|
            0 <= i < after.len() && library_loads_as(scan[j], after[i])
}

/// The same for libraries, keyed by name.
pub open spec fn libraries_rescanned(
    before: Seq<Library>,
    after: Seq<Library>,
    root: Seq<char>,
    scan: Seq<LibraryFolder>,
) -> bool {
    &&& forall|i: int|
        0 <= i < after.len() ==> (exists|j: int|
            0 <= j < scan.len() && library_loads_as(scan[j], after[i])) || (before.contains(
            after[i],
        ) && !is_under(after[i].location@, root))
    &&& forall|j: int|
        0 <= j < scan.len() && library_folder_error(scan[j]) is None ==> has_library_name(
            after,
            scan[j].info->0.name@,
        )
    &&& forall|k: int|
        0 <= k < before.len() && !is_under(before[k].location@, root) ==> has_library_name(
            after,
            before[k].info.name@,
        )
}

/// Every manifest of the scan can be digested.
pub open spec fn scan_fits(scan: RootScan) -> bool {
    forall|j: int| 0 <= j < scan.commands@.len() ==> manifest_fits(#[trigger] scan.commands@[j])
}

/// The best case-insensitive fuzzy match of `query` in `target`: its score and
/// the character indices of `target` that it matched.
pub uninterp spec fn fuzzy_best_match(query: Seq<char>, target: Seq<char>) -> Option<(int, Seq<usize>)>;

/// Relies on `sublime_fuzzy::best_match`: the best case-insensitive match of
/// `query` in `target`, none where either is empty.
#[verifier::external_body]
fn best_fuzzy_match(query: &str, target: &str) -> (r: Option<(isize, Vec<usize>)>)
    ensures
        match r {
            Some(m) => fuzzy_best_match(query@, target@) == Some((m.0 as int, m.1@)),
            None => fuzzy_best_match(query@, target@) is None,
        },
        query@.len() == 0 || target@.len() == 0 ==> r is None,
{
    sublime_fuzzy::best_match(query, target).map(|m| (m.score(), m.matched_indices().copied().collect()))
}

/// A command whose title matched a search term, with the match's score and
/// the indices of the title's characters that matched.
pub struct CommandSearchResult<'a> {
    pub command: &'a Command,
    pub score: isize,
    pub matched_indices: Vec<usize>,
}

/// `r` is the match of `term` against the title of the command it names.
pub open spec fn is_title_match(term: Seq<char>, r: CommandSearchResult) -> bool {
    fuzzy_best_match(term, r.command.info.title@) == Some((r.score as int, r.matched_indices@))
}

/// Scores never rise along `rs`.
pub open spec fn sorted_by_score(rs: Seq<CommandSearchResult>) -> bool {
    forall|i: int, j: int| 0 <= i < j < rs.len() ==> rs[i].score >= rs[j].score
}

/// `rs` holds exactly the matches of `term` among the first `n` commands of
/// `cmds`, each once.
pub open spec fn search_progress(
    term: Seq<char>,
    cmds: Seq<Command>,
    n: int,
    rs: Seq<CommandSearchResult>,
) -> bool {
    &&& forall|k: int|
        0 <= k < rs.len() ==> (exists|t: int| 0 <= t < n && *rs[k].command == cmds[t])
            && is_title_match(term, rs[k])
    &&& forall|t: int|
        0 <= t < n && fuzzy_best_match(term, cmds[t].info.title@) is Some ==> exists|k: int|
            0 <= k < rs.len() && *rs[k].command == cmds[t]
    &&& forall|k: int, l: int|
        0 <= k < rs.len() && 0 <= l < rs.len() && k != l ==> *rs[k].command != *rs[l].command
}

proof fn lemma_search_step(
    term: Seq<char>,
    cmds: Seq<Command>,
    i: int,
    before: Seq<CommandSearchResult>,
    p: int,
    hit: CommandSearchResult,
)
    requires
        ids_unique(cmds),
        0 <= i < cmds.len(),
        *hit.command == cmds[i],
        is_title_match(term, hit),
        0 <= p <= before.len(),
        search_progress(term, cmds, i, before),
    ensures
        search_progress(term, cmds, i + 1, before.insert(p, hit)),
{
    let after = before.insert(p, hit);
    assert forall|k: int| 0 <= k < before.len() implies *before[k].command != cmds[i] by {
        let t = choose|t: int| 0 <= t < i && *before[k].command == cmds[t];
        assert(cmds[t].id@ != cmds[i].id@);
    }
    assert forall|k: int| 0 <= k < after.len() implies (exists|t: int|
        0 <= t < i + 1 && *after[k].command == cmds[t]) && is_title_match(term, after[k]) by {
        if k < p {
            assert(after[k] == before[k]);
        } else if k == p {
            assert(*after[k].command == cmds[i]);
        } else {
            assert(after[k] == before[k - 1]);
        }
    }
    assert forall|t: int|
        0 <= t < i + 1 && fuzzy_best_match(term, cmds[t].info.title@) is Some implies exists|k: int|
        0 <= k < after.len() && *after[k].command == cmds[t] by {
        if t == i {
            assert(*after[p].command == cmds[t]);
        } else {
            let k = choose|k: int| 0 <= k < before.len() && *before[k].command == cmds[t];
            if k < p {
                assert(after[k] == before[k]);
            } else {
                assert(after[k + 1] == before[k]);
            }
        }
    }
    assert forall|a: int, b: int|
        0 <= a < after.len() && 0 <= b < after.len() && a != b implies *after[a].command
        != *after[b].command by {
        if a != p && b != p {
            let a0 = if a < p { a } else { a - 1 };
            let b0 = if b < p { b } else { b - 1 };
            assert(after[a] == before[a0] && after[b] == before[b0]);
        } else if a == p {
            let b0 = if b < p { b } else { b - 1 };
            assert(after[b] == before[b0]);
        } else {
            let a0 = if a < p { a } else { a - 1 };
            assert(after[a] == before[a0]);
        }
    }
}

/// Inserts `hit` after every result that scores at least as high, so that the
/// scores stay in descending order and equal scores keep their arrival order.
fn insert_by_score<'a>(results: &mut Vec<CommandSearchResult<'a>>, hit: CommandSearchResult<'a>) -> (p: usize)
    requires
        sorted_by_score(old(results)@),
    ensures
        p <= old(results)@.len(),
        final(results)@ == old(results)@.insert(p as int, hit),
        sorted_by_score(final(results)@),
        forall|k: int| 0 <= k < p ==> old(results)@[k].score >= hit.score,
        forall|k: int| p <= k < old(results)@.len() ==> old(results)@[k].score < hit.score,
{
    let mut p: usize = 0;
    while p < results.len() && results[p].score >= hit.score
        invariant
            p <= results@.len(),
            forall|k: int| 0 <= k < p ==> results@[k].score >= hit.score,
        decreases results@.len() - p,
    {
        p += 1;
    }
    let ghost before = results@;
    proof {
        assert forall|k: int| p <= k < before.len() implies before[k].score < hit.score by {
            if k > p {
                assert(before[p as int].score >= before[k].score);
            }
        }
    }
    results.insert(p, hit);
    proof {
        let after = results@;
        assert forall|a: int, b: int| 0 <= a < b < after.len() implies after[a].score
            >= after[b].score by {
            if b < p {
                assert(after[a] == before[a] && after[b] == before[b]);
            } else if b == p {
                assert(after[a] == before[a]);
            } else if a < p {
                assert(after[a] == before[a] && after[b] == before[b - 1]);
            } else if a == p {
                assert(after[b] == before[b - 1]);
            } else {
                assert(after[a] == before[a - 1] && after[b] == before[b - 1]);
            }
        }
    }
    p
}

/// A copy of the library table, handed to a run so that later scans leave it be.
pub struct LibrarySnapshot {
    libraries: Vec<Library>,
}

impl LibrarySnapshot {
    /// The libraries of the snapshot.
    pub closed spec fn libraries(&self) -> Seq<Library> {
        self.libraries@
    }

    /// Library names are keys: each occurs once.
    pub open spec fn wf(&self) -> bool {
        names_unique(self.libraries())
    }

    /// A snapshot of `libraries`, whose names are distinct.
    pub fn new(libraries: Vec<Library>) -> (r: LibrarySnapshot)
        requires
            names_unique(libraries@),
        ensures
            r.wf(),
            r.libraries() == libraries@,
    {
        LibrarySnapshot { libraries }
    }

    /// The library named `name`, if the snapshot holds one.
    pub fn get(&self, name: &str) -> (r: Option<&Library>)
        ensures
            r is None <==> !has_library_name(self.libraries(), name@),
            r is Some ==> exists|i: int|
                0 <= i < self.libraries().len() && self.libraries()[i] == *r->0
                    && self.libraries()[i].info.name@ == name@,
    {
        let mut i: usize = 0;
        while i < self.libraries.len()
            invariant
                i <= self.libraries@.len(),
                forall|k: int| 0 <= k < i ==> self.libraries@[k].info.name@ != name@,
            decreases self.libraries@.len() - i,
        {
            if same_text(self.libraries[i].info.name.as_str(), name) {
                assert(self.libraries()[i as int].info.name@ == name@);
                return Some(&self.libraries[i]);
            }
            i += 1;
        }
        None
    }
}

/// The index of commands and libraries found under the configured script roots.
pub struct ScriptManager {
    script_locations: Vec<String>,
    commands: Vec<Command>,
    libraries: Vec<Library>,
}

impl ScriptManager {
    /// The roots added so far, in order.
    pub closed spec fn locations(&self) -> Seq<String> {
        self.script_locations@
    }

    /// The commands of the index.
    pub closed spec fn commands(&self) -> Seq<Command> {
        self.commands@
    }

    /// The libraries of the index.
    pub closed spec fn libraries(&self) -> Seq<Library> {
        self.libraries@
    }

    /// Ids and library names are keys: each occurs once.
    pub open spec fn wf(&self) -> bool {
        ids_unique(self.commands()) && names_unique(self.libraries())
    }

    /// An empty index with no roots.
    pub fn new() -> (r: ScriptManager)
        ensures
            r.wf(),
            r.locations().len() == 0,
            r.commands().len() == 0,
            r.libraries().len() == 0,
    {
        ScriptManager { script_locations: Vec::new(), commands: Vec::new(), libraries: Vec::new() }
    }

    /// The roots added so far, in order.
    pub fn script_locations(&self) -> (r: &Vec<String>)
        ensures
            r@ == self.locations(),
    {
        &self.script_locations
    }

    /// The command with the id `id`, if there is one.
    pub fn find_command_by_id(&self, id: &str) -> (r: Option<&Command>)
        ensures
            r is None <==> !has_command_id(self.commands(), id@),
            r is Some ==> exists|i: int|
                0 <= i < self.commands().len() && self.commands()[i] == *r->0
                    && self.commands()[i].id@ == id@,
    {
        let mut i: usize = 0;
        while i < self.commands.len()
            invariant
                i <= self.commands@.len(),
                forall|k: int| 0 <= k < i ==> self.commands@[k].id@ != id@,
            decreases self.commands@.len() - i,
        {
            if same_text(self.commands[i].id.as_str(), id) {
                assert(self.commands()[i as int].id@ == id@);
                return Some(&self.commands[i]);
            }
            i += 1;
        }
        None
    }

    /// A copy of the library table as it is now.
    pub fn get_libraries_snapshot(&self) -> (r: LibrarySnapshot)
        requires
            self.wf(),
        ensures
            r.wf(),
            r.libraries() == self.libraries(),
    {
        let mut copy: Vec<Library> = Vec::new();
        let mut i: usize = 0;
        while i < self.libraries.len()
            invariant
                i <= self.libraries@.len(),
                copy@ == self.libraries@.subrange(0, i as int),
            decreases self.libraries@.len() - i,
        {
            copy.push(self.libraries[i].duplicate());
            i += 1;
        }
        assert(copy@ =~= self.libraries@);
        LibrarySnapshot::new(copy)
    }

    /// Drops the commands and libraries that lie under `root`.
    fn drop_under(&mut self, root: &str)
        requires
            old(self).wf(),
        ensures
            final(self).wf(),
            final(self).locations() == old(self).locations(),
            forall|i: int|
                0 <= i < final(self).commands().len() ==> old(self).commands().contains(
                    final(self).commands()[i],
                ) && !is_under(final(self).commands()[i].location@, root@),
            forall|k: int|
                0 <= k < old(self).commands().len() && !is_under(
                    old(self).commands()[k].location@,
                    root@,
                ) ==> final(self).commands().contains(old(self).commands()[k]),
            forall|i: int|
                0 <= i < final(self).libraries().len() ==> old(self).libraries().contains(
                    final(self).libraries()[i],
                ) && !is_under(final(self).libraries()[i].location@, root@),
            forall|k: int|
                0 <= k < old(self).libraries().len() && !is_under(
                    old(self).libraries()[k].location@,
                    root@,
                ) ==> final(self).libraries().contains(old(self).libraries()[k]),
    {
        let mut i: usize = 0;
        while i < self.commands.len()
            invariant
                i <= self.commands@.len(),
                ids_unique(self.commands@),
                names_unique(self.libraries@),
                self.libraries@ == old(self).libraries@,
                self.script_locations@ == old(self).script_locations@,
                forall|k: int| 0 <= k < i ==> !is_under(self.commands@[k].location@, root@),
                forall|k: int|
                    0 <= k < self.commands@.len() ==> old(self).commands@.contains(
                        self.commands@[k],
                    ),
                forall|k: int|
                    0 <= k < old(self).commands@.len() && !is_under(
                        old(self).commands@[k].location@,
                        root@,
                    ) ==> self.commands@.contains(old(self).commands@[k]),
            decreases self.commands@.len() - i,
        {
            if path_is_under(self.commands[i].location.as_str(), root) {
                let ghost before = self.commands@;
                self.commands.remove(i);
                proof {
                    let after = self.commands@;
                    assert forall|k: int| 0 <= k < after.len() implies old(self).commands@.contains(
                        after[k],
                    ) by {
                        if k < i {
                            assert(after[k] == before[k]);
                        } else {
                            assert(after[k] == before[k + 1]);
                        }
                    }
                    assert forall|k: int|
                        0 <= k < old(self).commands@.len() && !is_under(
                            old(self).commands@[k].location@,
                            root@,
                        ) implies after.contains(old(self).commands@[k]) by {
                        let x = old(self).commands@[k];
                        let p = choose|p: int| 0 <= p < before.len() && before[p] == x;
                        if p < i {
                            assert(after[p] == x);
                        } else {
                            assert(p != i);
                            assert(after[p - 1] == x);
                        }
                    }
                }
            } else {
                i += 1;
            }
        }
        let mut i: usize = 0;
        while i < self.libraries.len()
            invariant
                i <= self.libraries@.len(),
                ids_unique(self.commands@),
                names_unique(self.libraries@),
                self.script_locations@ == old(self).script_locations@,
                forall|k: int|
                    0 <= k < self.commands@.len() ==> old(self).commands@.contains(
                        self.commands@[k],
                    ) && !is_under(self.commands@[k].location@, root@),
                forall|k: int|
                    0 <= k < old(self).commands@.len() && !is_under(
                        old(self).commands@[k].location@,
                        root@,
                    ) ==> self.commands@.contains(old(self).commands@[k]),
                forall|k: int| 0 <= k < i ==> !is_under(self.libraries@[k].location@, root@),
                forall|k: int|
                    0 <= k < self.libraries@.len() ==> old(self).libraries@.contains(
                        self.libraries@[k],
                    ),
                forall|k: int|
                    0 <= k < old(self).libraries@.len() && !is_under(
                        old(self).libraries@[k].location@,
                        root@,
                    ) ==> self.libraries@.contains(old(self).libraries@[k]),
            decreases self.libraries@.len() - i,
        {
            if path_is_under(self.libraries[i].location.as_str(), root) {
                let ghost before = self.libraries@;
                self.libraries.remove(i);
                proof {
                    let after = self.libraries@;
                    assert forall|k: int| 0 <= k < after.len() implies old(
                        self,
                    ).libraries@.contains(after[k]) by {
                        if k < i {
                            assert(after[k] == before[k]);
                        } else {
                            assert(after[k] == before[k + 1]);
                        }
                    }
                    assert forall|k: int|
                        0 <= k < old(self).libraries@.len() && !is_under(
                            old(self).libraries@[k].location@,
                            root@,
                        ) implies after.contains(old(self).libraries@[k]) by {
                        let x = old(self).libraries@[k];
                        let p = choose|p: int| 0 <= p < before.len() && before[p] == x;
                        if p < i {
                            assert(after[p] == x);
                        } else {
                            assert(p != i);
                            assert(after[p - 1] == x);
                        }
                    }
                }
            } else {
                i += 1;
            }
        }
    }

    /// Replaces what the index holds under `root` with what `scan` found there.
    fn apply_scan(&mut self, root: &str, scan: &RootScan)
        requires
            old(self).wf(),
            scan_fits(*scan),
        ensures
            final(self).wf(),
            final(self).locations() == old(self).locations(),
            commands_rescanned(
                old(self).commands(),
                final(self).commands(),
                root@,
                scan.commands@,
            ),
            last_scanned_wins(final(self).commands(), scan.commands@),
            libraries_rescanned(
                old(self).libraries(),
                final(self).libraries(),
                root@,
                scan.libraries@,
            ),
            last_library_wins(final(self).libraries(), scan.libraries@),
    {
        let ghost cmds0 = self.commands@;
        let ghost libs0 = self.libraries@;
        self.drop_under(root);
        proof {
            assert forall|k: int|
                0 <= k < cmds0.len() && !is_under(cmds0[k].location@, root@) implies has_command_id(
                self.commands@,
                cmds0[k].id@,
            ) by {
                let p = choose|p: int| 0 <= p < self.commands@.len() && self.commands@[p] == cmds0[k];
                assert(self.commands@[p].id@ == cmds0[k].id@);
            }
            assert forall|k: int|
                0 <= k < libs0.len() && !is_under(libs0[k].location@, root@) implies has_library_name(
                self.libraries@,
                libs0[k].info.name@,
            ) by {
                let p = choose|p: int|
                    0 <= p < self.libraries@.len() && self.libraries@[p] == libs0[k];
                assert(self.libraries@[p].info.name@ == libs0[k].info.name@);
            }
        }
        let mut j: usize = 0;
        while j < scan.commands.len()
            invariant
                j <= scan.commands@.len(),
                scan_fits(*scan),
                self.wf(),
                self.script_locations@ == old(self).script_locations@,
                cmds0 == old(self).commands@,
                libs0 == old(self).libraries@,
                forall|i: int|
                    0 <= i < self.commands@.len() ==> (exists|jj: int|
                        0 <= jj < scan.commands@.len() && loads_as(
                            scan.commands@[jj],
                            self.commands@[i],
                        )) || (cmds0.contains(self.commands@[i]) && !is_under(
                        self.commands@[i].location@,
                        root@,
                    )),
                forall|jj: int|
                    0 <= jj < j && command_folder_error(scan.commands@[jj]) is None
                        ==> has_command_id(
                        self.commands@,
                        command_id_of(scan.commands@[jj].manifest->0@),
                    ),
                forall|k: int|
                    0 <= k < cmds0.len() && !is_under(cmds0[k].location@, root@)
                        ==> has_command_id(self.commands@, cmds0[k].id@),
                forall|jj: int|
                    0 <= jj < j && last_with_its_id(scan.commands@, jj, j as int) ==> exists|i: int|
                        0 <= i < self.commands@.len() && loads_as(scan.commands@[jj], self.commands@[i]),
                forall|i: int|
                    0 <= i < self.libraries@.len() ==> libs0.contains(self.libraries@[i])
                        && !is_under(self.libraries@[i].location@, root@),
                forall|k: int|
                    0 <= k < libs0.len() && !is_under(libs0[k].location@, root@)
                        ==> has_library_name(self.libraries@, libs0[k].info.name@),
            decreases scan.commands@.len() - j,
        {
            assert(manifest_fits(scan.commands@[j as int]));
            match load_command(&scan.commands[j]) {
                Ok(c) => {
                    let ghost cur = self.commands@;
                    proof {
                        lemma_with_command(cur, c);
                    }
                    self.insert_command(c);
                    proof {
                        let after = self.commands@;
                        assert forall|i: int| 0 <= i < after.len() implies (exists|jj: int|
                            0 <= jj < scan.commands@.len() && loads_as(
                                scan.commands@[jj],
                                after[i],
                            )) || (cmds0.contains(after[i]) && !is_under(
                            after[i].location@,
                            root@,
                        )) by {
                            if after[i] == c {
                                assert(loads_as(scan.commands@[j as int], after[i]));
                            } else {
                                let p = choose|p: int| 0 <= p < cur.len() && cur[p] == after[i];
                                assert(cur[p] == after[i]);
                            }
                        }
                        let j1 = j + 1;
                        assert forall|jj: int|
                            0 <= jj < j1 && #[trigger] last_with_its_id(
                                scan.commands@,
                                jj,
                                j1,
                            ) implies exists|i: int|
                            0 <= i < after.len() && loads_as(scan.commands@[jj], after[i]) by {
                            if jj == j {
                                let w = choose|w: int| 0 <= w < after.len() && after[w] == c;
                                assert(loads_as(scan.commands@[jj], after[w]));
                            } else {
                                assert(command_folder_error(scan.commands@[j as int]) is None);
                                assert(command_id_of(scan.commands@[j as int].manifest->0@)
                                    != command_id_of(scan.commands@[jj].manifest->0@));
                                assert(last_with_its_id(scan.commands@, jj, j as int));
                                let w = choose|w: int|
                                    0 <= w < cur.len() && loads_as(scan.commands@[jj], cur[w]);
                                assert(cur[w].id@ != c.id@);
                                assert(after[w] == cur[w]);
                            }
                        }
                    }
                },
                Err(_) => {
                    proof {
                        let j1 = j + 1;
                        assert forall|jj: int|
                            0 <= jj < j1 && #[trigger] last_with_its_id(
                                scan.commands@,
                                jj,
                                j1,
                            ) implies exists|i: int|
                            0 <= i < self.commands@.len() && loads_as(
                                scan.commands@[jj],
                                self.commands@[i],
                            ) by {
                            assert(jj != j);
                            assert(last_with_its_id(scan.commands@, jj, j as int));
                        }
                    }
                },
            }
            j += 1;
        }
        let mut j: usize = 0;
        while j < scan.libraries.len()
            invariant
                j <= scan.libraries@.len(),
                self.wf(),
                self.script_locations@ == old(self).script_locations@,
                cmds0 == old(self).commands@,
                libs0 == old(self).libraries@,
                commands_rescanned(cmds0, self.commands@, root@, scan.commands@),
                last_scanned_wins(self.commands@, scan.commands@),
                forall|i: int|
                    0 <= i < self.libraries@.len() ==> (exists|jj: int|
                        0 <= jj < scan.libraries@.len() && library_loads_as(
                            scan.libraries@[jj],
                            self.libraries@[i],
                        )) || (libs0.contains(self.libraries@[i]) && !is_under(
                        self.libraries@[i].location@,
                        root@,
                    )),
                forall|jj: int|
                    0 <= jj < j && library_folder_error(scan.libraries@[jj]) is None
                        ==> has_library_name(
                        self.libraries@,
                        scan.libraries@[jj].info->0.name@,
                    ),
                forall|k: int|
                    0 <= k < libs0.len() && !is_under(libs0[k].location@, root@)
                        ==> has_library_name(self.libraries@, libs0[k].info.name@),
                forall|jj: int|
                    0 <= jj < j && last_with_its_name(scan.libraries@, jj, j as int) ==> exists|i: int|
                        0 <= i < self.libraries@.len() && library_loads_as(
                            scan.libraries@[jj],
                            self.libraries@[i],
                        ),
            decreases scan.libraries@.len() - j,
        {
            match load_library(&scan.libraries[j]) {
                Ok(l) => {
                    let ghost cur = self.libraries@;
                    proof {
                        lemma_with_library(cur, l);
                    }
                    self.insert_library(l);
                    proof {
                        let after = self.libraries@;
                        assert forall|i: int| 0 <= i < after.len() implies (exists|jj: int|
                            0 <= jj < scan.libraries@.len() && library_loads_as(
                                scan.libraries@[jj],
                                after[i],
                            )) || (libs0.contains(after[i]) && !is_under(
                            after[i].location@,
                            root@,
                        )) by {
                            if after[i] == l {
                                assert(library_loads_as(scan.libraries@[j as int], after[i]));
                            } else {
                                let p = choose|p: int| 0 <= p < cur.len() && cur[p] == after[i];
                                assert(cur[p] == after[i]);
                            }
                        }
                        let j1 = j + 1;
                        assert forall|jj: int|
                            0 <= jj < j1 && #[trigger] last_with_its_name(
                                scan.libraries@,
                                jj,
                                j1,
                            ) implies exists|i: int|
                            0 <= i < after.len() && library_loads_as(scan.libraries@[jj], after[i]) by {
                            if jj == j {
                                let w = choose|w: int| 0 <= w < after.len() && after[w] == l;
                                assert(library_loads_as(scan.libraries@[jj], after[w]));
                            } else {
                                assert(library_folder_error(scan.libraries@[j as int]) is None);
                                assert(last_with_its_name(scan.libraries@, jj, j as int));
                                let w = choose|w: int|
                                    0 <= w < cur.len() && library_loads_as(scan.libraries@[jj], cur[w]);
                                assert(cur[w].info.name@ != l.info.name@);
                                assert(after[w] == cur[w]);
                            }
                        }
                    }
                },
                Err(_) => {
                    proof {
                        let j1 = j + 1;
                        assert forall|jj: int|
                            0 <= jj < j1 && #[trigger] last_with_its_name(
                                scan.libraries@,
                                jj,
                                j1,
                            ) implies exists|i: int|
                            0 <= i < self.libraries@.len() && library_loads_as(
                                scan.libraries@[jj],
                                self.libraries@[i],
                            ) by {
                            assert(jj != j);
                            assert(last_with_its_name(scan.libraries@, jj, j as int));
                        }
                    }
                },
            }
            j += 1;
        }
    }

    /// Adds a script root and indexes what its scan found. A folder that fails
    /// to load is skipped and the others are still indexed.
    pub fn add_location(&mut self, location: String, scan: &RootScan)
        requires
            old(self).wf(),
            scan_fits(*scan),
        ensures
            final(self).wf(),
            final(self).locations() == old(self).locations().push(location),
            commands_rescanned(
                old(self).commands(),
                final(self).commands(),
                location@,
                scan.commands@,
            ),
            last_scanned_wins(final(self).commands(), scan.commands@),
            libraries_rescanned(
                old(self).libraries(),
                final(self).libraries(),
                location@,
                scan.libraries@,
            ),
            last_library_wins(final(self).libraries(), scan.libraries@),
    {
        self.apply_scan(location.as_str(), scan);
        self.script_locations.push(location);
    }

    /// Re-indexes the root at position `index` from a fresh scan of it: what the
    /// index held under that root is replaced by what the scan found.
    pub fn reload_location(&mut self, index: usize, scan: &RootScan)
        requires
            old(self).wf(),
            scan_fits(*scan),
            index < old(self).locations().len(),
        ensures
            final(self).wf(),
            final(self).locations() == old(self).locations(),
            commands_rescanned(
                old(self).commands(),
                final(self).commands(),
                old(self).locations()[index as int]@,
                scan.commands@,
            ),
            last_scanned_wins(final(self).commands(), scan.commands@),
            libraries_rescanned(
                old(self).libraries(),
                final(self).libraries(),
                old(self).locations()[index as int]@,
                scan.libraries@,
            ),
            last_library_wins(final(self).libraries(), scan.libraries@),
    {
        let root = self.script_locations[index].clone();
        self.apply_scan(root.as_str(), scan);
    }

    /// The commands whose titles fuzzily match `search_term`, best score first;
    /// each command occurs once.
    pub fn find_commands_by_title(&self, search_term: &str) -> (r: Vec<CommandSearchResult>)
        requires
            self.wf(),
        ensures
            sorted_by_score(r@),
            forall|k: int|
                0 <= k < r@.len() ==> self.commands().contains(*r@[k].command)
                    && is_title_match(search_term@, r@[k]),
            forall|i: int|
                0 <= i < self.commands().len() && fuzzy_best_match(
                    search_term@,
                    self.commands()[i].info.title@,
                ) is Some ==> exists|k: int| 0 <= k < r@.len() && *r@[k].command == self.commands()[i],
            forall|k: int, l: int|
                0 <= k < r@.len() && 0 <= l < r@.len() && k != l ==> *r@[k].command != *r@[l].command,
    {
        let mut results: Vec<CommandSearchResult> = Vec::new();
        let mut i: usize = 0;
        while i < self.commands.len()
            invariant
                i <= self.commands@.len(),
                ids_unique(self.commands@),
                sorted_by_score(results@),
                search_progress(search_term@, self.commands@, i as int, results@),
            decreases self.commands@.len() - i,
        {
            let command = &self.commands[i];
            if let Some(m) = best_fuzzy_match(search_term, command.info.title.as_str()) {
                let hit = CommandSearchResult { command, score: m.0, matched_indices: m.1 };
                let ghost before = results@;
                let p = insert_by_score(&mut results, hit);
                proof {
                    lemma_search_step(search_term@, self.commands@, i as int, before, p as int, hit);
                }
            }
            i += 1;
        }
        proof {
            assert forall|k: int| 0 <= k < results@.len() implies self.commands().contains(
                *results@[k].command,
            ) by {
                let t = choose|t: int|
                    0 <= t < self.commands@.len() && *results@[k].command == self.commands@[t];
                assert(self.commands@[t] == *results@[k].command);
            }
        }
        results
    }

    /// Puts `c` in the index; a command with the same id is replaced, so the
    /// one inserted last wins.
    pub fn insert_command(&mut self, c: Command)
        requires
            old(self).wf(),
        ensures
            final(self).wf(),
            final(self).commands() == with_command(old(self).commands(), c),
            final(self).libraries() == old(self).libraries(),
            final(self).locations() == old(self).locations(),
    {
        let mut i: usize = 0;
        while i < self.commands.len()
            invariant
                i <= self.commands@.len(),
                forall|k: int| 0 <= k < i ==> self.commands@[k].id@ != c.id@,
                *self == *old(self),
                old(self).wf(),
            decreases self.commands@.len() - i,
        {
            if same_text(self.commands[i].id.as_str(), c.id.as_str()) {
                proof {
                    assert(self.commands@[i as int].id@ == c.id@);
                    let j = choose|j: int|
                        0 <= j < self.commands@.len() && self.commands@[j].id@ == c.id@;
                    assert(j == i);
                }
                self.commands.set(i, c);
                return;
            }
            i += 1;
        }
        self.commands.push(c);
    }

    /// Puts `l` in the index; a library with the same name is replaced.
    pub fn insert_library(&mut self, l: Library)
        requires
            old(self).wf(),
        ensures
            final(self).wf(),
            final(self).libraries() == with_library(old(self).libraries(), l),
            final(self).commands() == old(self).commands(),
            final(self).locations() == old(self).locations(),
    {
        let mut i: usize = 0;
        while i < self.libraries.len()
            invariant
                i <= self.libraries@.len(),
                forall|k: int| 0 <= k < i ==> self.libraries@[k].info.name@ != l.info.name@,
                *self == *old(self),
                old(self).wf(),
            decreases self.libraries@.len() - i,
        {
            if same_text(self.libraries[i].info.name.as_str(), l.info.name.as_str()) {
                proof {
                    assert(self.libraries@[i as int].info.name@ == l.info.name@);
                    let j = choose|j: int|
                        0 <= j < self.libraries@.len() && self.libraries@[j].info.name@
                            == l.info.name@;
                    assert(j == i);
                }
                self.libraries.set(i, l);
                return;
            }
            i += 1;
        }
        self.libraries.push(l);
    }
}

} // verus!
