//! The sandboxed module resolver: maps an import specifier to candidate files
//! and lets a file be read only where it lies under an allowlisted root.
use vstd::prelude::*;
use crate::index::{has_library_name, names_unique, LibrarySnapshot};
use crate::model::{Command, Library};
use crate::paths::{
    join_segments, normalize, normalize_segments, path_of, split_path, split_segments, views,
};
use crate::text::{has_prefix, is_under, path_is_under, same_text, starts_with_text};

verus! {

/// Where an import specifier points.
#[derive(Debug, PartialEq, Eq)]
pub enum ModuleRequest {
    /// A file of the script's own tree, by its normalised absolute path.
    File(String),
    /// A file of the library named `library`, at `sub_path` below its root.
    Lib { library: String, sub_path: String },
}

/// Why a module could not be resolved or loaded.
#[derive(Debug, PartialEq, Eq)]
pub enum ResolveError {
    /// The specifier is no URL, and no relative or absolute path either.
    InvalidSpecifier,
    /// The specifier's URL has a scheme other than `file` and `lib`; it is named.
    UnsupportedScheme(String),
    /// The snapshot of this run holds no library of this name.
    LibraryNotFound(String),
    /// The path lies outside every allowlisted root.
    SandboxViolation,
    /// The file's extension names no source kind that can be run.
    UnsupportedMediaType,
    /// The source did not parse or transpile.
    TranspileFailed,
}

/// How a source file becomes runnable.
#[derive(Debug, PartialEq, Eq, Clone, Copy)]
pub enum MediaKind {
    /// Already in the engine's native form.
    JavaScript,
    /// Needs transpiling first.
    Transpiled,
}

/// The name of the media type that the file extension of `path` gives
/// (`TypeScript`, `JSX`, `Unknown`, ...).
pub uninterp spec fn media_type_name(path: Seq<char>) -> Seq<char>;

/// The JavaScript that transpiling the module `code` at the absolute path
/// `path` emits, its media type taken from the path; none where it fails.
pub uninterp spec fn transpiled_file(path: Seq<char>, code: Seq<char>) -> Option<Seq<char>>;

/// The JavaScript that transpiling the TypeScript module `code` named by the
/// URL `specifier` emits; none where it fails.
pub uninterp spec fn transpiled_typescript(specifier: Seq<char>, code: Seq<char>) -> Option<Seq<char>>;

/// How a source of the media type named `name` becomes runnable, if it can.
pub open spec fn kind_of_media_name(name: Seq<char>) -> Option<MediaKind> {
    if name == "JSX"@ || name == "TypeScript"@ || name == "Mts"@ || name == "Cts"@ || name
        == "Dts"@ || name == "Dmts"@ || name == "Dcts"@ || name == "TSX"@ {
        Some(MediaKind::Transpiled)
    } else if name == "JavaScript"@ || name == "Mjs"@ || name == "Cjs"@ {
        Some(MediaKind::JavaScript)
    } else {
        None
    }
}

/// How the file at `p` becomes runnable, by its media type.
pub open spec fn media_kind_of(p: Seq<char>) -> Option<MediaKind> {
    kind_of_media_name(media_type_name(p))
}

/// `s` without the byte-order marks (U+FEFF) it starts with.
pub open spec fn without_boms(s: Seq<char>) -> Seq<char>
    decreases s.len(),
{
    if s.len() > 0 && s[0] == '\u{FEFF}' {
        without_boms(s.drop_first())
    } else {
        s
    }
}

/// Whether `s` starts with a byte-order mark.
pub open spec fn starts_with_bom(s: Seq<char>) -> bool {
    s.len() > 0 && s[0] == '\u{FEFF}'
}

proof fn lemma_without_boms_from(s: Seq<char>, k: int)
    requires
        0 <= k <= s.len(),
        forall|j: int| 0 <= j < k ==> s[j] == '\u{FEFF}',
    ensures
        without_boms(s) == without_boms(s.subrange(k, s.len() as int)),
    decreases k,
{
    if k == 0 {
        assert(s.subrange(0, s.len() as int) =~= s);
    } else {
        assert(s[0] == '\u{FEFF}');
        let t = s.drop_first();
        assert(without_boms(s) == without_boms(t));
        assert forall|j: int| 0 <= j < k - 1 implies t[j] == '\u{FEFF}' by {
            assert(t[j] == s[j + 1]);
        }
        lemma_without_boms_from(t, k - 1);
        assert(t.subrange(k - 1, t.len() as int) =~= s.subrange(k, s.len() as int));
    }
}

/// `s` without the byte-order marks it starts with.
pub fn strip_boms(s: &str) -> (r: &str)
    ensures
        r@ == without_boms(s@),
        !starts_with_bom(r@),
{
    let n = s.unicode_len();
    let mut k: usize = 0;
    while k < n && s.get_char(k) == '\u{FEFF}'
        invariant
            n == s@.len(),
            k <= n,
            forall|j: int| 0 <= j < k ==> s@[j] == '\u{FEFF}',
        decreases n - k,
    {
        k += 1;
    }
    let r = s.substring_char(k, n);
    proof {
        lemma_without_boms_from(s@, k as int);
        assert(r@ =~= s@.subrange(k as int, n as int));
    }
    r
}

/// Relies on `deno_ast::MediaType::from_path`, written out by its `Display`
/// impl: one distinct name per media type.
#[verifier::external_body]
fn media_type_of_path(path: &str) -> (r: String)
    ensures
        r@ == media_type_name(path@),
{
    deno_ast::MediaType::from_path(std::path::Path::new(path)).to_string()
}

/// Relies on `deno_ast::parse_module` and `ParsedSource::transpile` with
/// default options, for a file URL made from `path` and the media type that
/// `MediaType::from_path` gives it. Parsing panics in debug builds on source
/// that starts with a byte-order mark.
#[verifier::external_body]
fn transpile_file_source(path: &str, code: &str) -> (r: Option<String>)
    requires
        !starts_with_bom(code@),
    ensures
        match r {
            Some(t) => transpiled_file(path@, code@) == Some(t@),
            None => transpiled_file(path@, code@) is None,
        },
{
    let specifier = deno_ast::ModuleSpecifier::from_file_path(path).ok()?;
    let media_type = deno_ast::MediaType::from_path(std::path::Path::new(path));
    let parsed = deno_ast::parse_module(deno_ast::ParseParams {
        specifier, text: code.into(), media_type, capture_tokens: false, scope_analysis: false, maybe_syntax: None,
    }).ok()?;
    let emitted = parsed.transpile(&Default::default(), &Default::default(), &Default::default()).ok()?;
    Some(emitted.into_source().text)
}

/// Relies on `deno_ast::parse_module` and `ParsedSource::transpile` with
/// default options, for TypeScript source named by the URL `specifier`.
/// Parsing panics in debug builds on source that starts with a byte-order mark.
#[verifier::external_body]
fn transpile_typescript_source(specifier: &str, code: &str) -> (r: Option<String>)
    requires
        !starts_with_bom(code@),
    ensures
        match r {
            Some(t) => transpiled_typescript(specifier@, code@) == Some(t@),
            None => transpiled_typescript(specifier@, code@) is None,
        },
{
    let specifier = deno_ast::ModuleSpecifier::parse(specifier).ok()?;
    let parsed = deno_ast::parse_module(deno_ast::ParseParams {
        specifier, text: code.into(), media_type: deno_ast::MediaType::TypeScript, capture_tokens: false,
        scope_analysis: false, maybe_syntax: None,
    }).ok()?;
    let emitted = parsed.transpile(&Default::default(), &Default::default(), &Default::default()).ok()?;
    Some(emitted.into_source().text)
}

/// The component that starts at `i` (just after a slash) is `.` or `..`.
pub open spec fn dot_segment_at(p: Seq<char>, i: int) -> bool {
    &&& 0 <= i < p.len()
    &&& p[i] == '.'
    &&& (i + 1 == p.len() || p[i + 1] == '/' || (p[i + 1] == '.' && (i + 2 == p.len() || p[i + 2]
        == '/')))
}

/// No component of `p` after a slash is `.` or `..`.
pub open spec fn no_dot_segments(p: Seq<char>) -> bool {
    forall|i: int| 0 <= i < p.len() && p[i] == '/' ==> !dot_segment_at(p, i + 1)
}

/// The sandbox lets `p` be read: it names no `.` or `..` component and lies
/// under one of the roots `allowed`.
pub open spec fn sandbox_allows(allowed: Seq<String>, p: Seq<char>) -> bool {
    &&& no_dot_segments(p)
    &&& exists|i: int| 0 <= i < allowed.len() && is_under(p, allowed[i]@)
}

/// The position of the first slash of `s` at or after `from`, or the length of `s`.
pub open spec fn next_slash(s: Seq<char>, from: int) -> int
    decreases s.len() - from,
{
    if from >= s.len() {
        s.len() as int
    } else if s[from] == '/' {
        from
    } else {
        next_slash(s, from + 1)
    }
}

/// Where the library name ends in the path of a `lib:` specifier: after the
/// first component, or after the second where the first starts with `@`.
pub open spec fn lib_name_end(s: Seq<char>) -> int {
    if s.len() > 0 && s[0] == '@' && next_slash(s, 0) < s.len() {
        next_slash(s, next_slash(s, 0) + 1)
    } else {
        next_slash(s, 0)
    }
}

/// The chars of `file://`.
pub open spec fn file_scheme() -> Seq<char> {
    seq!['f', 'i', 'l', 'e', ':', '/', '/']
}

/// The specifier is relative: it starts with `./` or `../`.
pub open spec fn is_relative(s: Seq<char>) -> bool {
    has_prefix(s, seq!['.', '/']) || has_prefix(s, seq!['.', '.', '/'])
}

/// The parts of a URL that resolution reads: its scheme, its path, and the
/// file path it names where it is a `file` URL.
pub struct UrlParts {
    pub scheme: String,
    pub path: String,
    pub file_path: Option<String>,
}

/// The views of the parts of a URL.
pub open spec fn parts_view(u: UrlParts) -> (Seq<char>, Seq<char>, Option<Seq<char>>) {
    (
        u.scheme@,
        u.path@,
        match u.file_path {
            Some(f) => Some(f@),
            None => None,
        },
    )
}

/// The parts of `s` read as an absolute URL, if it is one.
pub uninterp spec fn parsed_url(s: Seq<char>) -> Option<(Seq<char>, Seq<char>, Option<Seq<char>>)>;

/// The parts of the URL `s` read relative to the URL `base`, if that works.
pub uninterp spec fn joined_url(base: Seq<char>, s: Seq<char>) -> Option<
    (Seq<char>, Seq<char>, Option<Seq<char>>),
>;

/// The `file` URL of the absolute path `path`, if it has one.
pub uninterp spec fn file_url(path: Seq<char>) -> Option<Seq<char>>;

/// Relies on `url::Url::parse` (as `deno_ast::ModuleSpecifier`), with its
/// `scheme`, `path` and `to_file_path` accessors.
#[verifier::external_body]
fn parse_url(s: &str) -> (r: Option<UrlParts>)
    ensures
        match r {
            Some(u) => parsed_url(s@) == Some(parts_view(u)),
            None => parsed_url(s@) is None,
        },
{
    let u = deno_ast::ModuleSpecifier::parse(s).ok()?;
    let file_path = u.to_file_path().ok().and_then(|p| p.to_str().map(String::from));
    Some(UrlParts { scheme: u.scheme().to_string(), path: u.path().to_string(), file_path })
}

/// Relies on `url::Url::parse` of `base` and `Url::join` (as
/// `deno_ast::ModuleSpecifier`), with the accessors `parse_url` reads.
#[verifier::external_body]
fn join_url(base: &str, s: &str) -> (r: Option<UrlParts>)
    ensures
        match r {
            Some(u) => joined_url(base@, s@) == Some(parts_view(u)),
            None => joined_url(base@, s@) is None,
        },
{
    let u = deno_ast::ModuleSpecifier::parse(base).ok()?.join(s).ok()?;
    let file_path = u.to_file_path().ok().and_then(|p| p.to_str().map(String::from));
    Some(UrlParts { scheme: u.scheme().to_string(), path: u.path().to_string(), file_path })
}

/// Relies on `url::Url::from_file_path` (as `deno_ast::ModuleSpecifier`),
/// written out as a string.
#[verifier::external_body]
fn file_url_of_path(path: &str) -> (r: Option<String>)
    ensures
        match r {
            Some(u) => file_url(path@) == Some(u@),
            None => file_url(path@) is None,
        },
{
    deno_ast::ModuleSpecifier::from_file_path(path).ok().map(String::from)
}

/// The URL that `specifier` names, imported from the module at the URL
/// `referrer`: the specifier itself where it is an absolute URL, else a path
/// starting with `./`, `../` or `/` taken relative to the referrer.
pub open spec fn url_of_specifier(specifier: Seq<char>, referrer: Seq<char>) -> Option<
    (Seq<char>, Seq<char>, Option<Seq<char>>),
> {
    if parsed_url(specifier) is Some {
        parsed_url(specifier)
    } else if is_relative(specifier) || has_prefix(specifier, seq!['/']) {
        joined_url(referrer, specifier)
    } else {
        None
    }
}

/// The position of the last `c` among the first `n` chars of `p`, or -1.
pub open spec fn last_of(p: Seq<char>, c: char, n: int) -> int
    decreases n,
{
    if n <= 0 {
        -1
    } else if p[n - 1] == c {
        n - 1
    } else {
        last_of(p, c, n - 1)
    }
}

/// Where the extension of the file name of `p` starts (at its last dot, where
/// that dot is not the name's first char), or the length of `p`.
pub open spec fn stem_end(p: Seq<char>) -> int {
    let slash = last_of(p, '/', p.len() as int);
    let dot = last_of(p, '.', p.len() as int);
    if dot > slash + 1 {
        dot
    } else {
        p.len() as int
    }
}

/// The files tried, in order, for a path with no usable extension: the path
/// with its extension replaced by (or given) each runnable one.
pub open spec fn with_extensions(p: Seq<char>) -> Seq<Seq<char>> {
    let stem = p.subrange(0, stem_end(p));
    seq![
        stem + seq!['.', 't', 's'],
        stem + seq!['.', 't', 's', 'x'],
        stem + seq!['.', 'j', 's'],
        stem + seq!['.', 'j', 's', 'x'],
    ]
}

/// The files tried, in order, for the path `p` of a file request.
pub open spec fn file_candidates(p: Seq<char>) -> Seq<Seq<char>> {
    if media_type_name(p) == "Unknown"@ {
        with_extensions(p)
    } else {
        seq![p]
    }
}

/// The absolute, normalised form of the path `p`.
pub open spec fn normal_path(p: Seq<char>) -> Seq<char> {
    path_of(normalize(split_path(p)))
}

/// The files tried, in order, for a library path that is not a directory:
/// the path itself, then with each extension.
pub open spec fn file_or_extensions(base: Seq<char>) -> Seq<Seq<char>> {
    seq![base] + with_extensions(base)
}

/// The files tried, in order, for a library path that is a directory: its
/// `index` file, then that with each extension.
pub open spec fn index_candidates(base: Seq<char>) -> Seq<Seq<char>> {
    let index = base + seq!['/', 'i', 'n', 'd', 'e', 'x'];
    seq![index] + with_extensions(index)
}

/// Where to look for a module: `candidates` in order, unless `directory` names
/// a directory, in which case `directory_candidates` in order.
#[derive(Debug, PartialEq, Eq)]
pub struct LoadPlan {
    pub directory: Option<String>,
    pub candidates: Vec<String>,
    pub directory_candidates: Vec<String>,
}

/// The view of an optional string.
pub open spec fn opt_view(o: Option<String>) -> Option<Seq<char>> {
    match o {
        Some(s) => Some(s@),
        None => None,
    }
}

/// What planning a load from the library at `location`, at `sub_path` below
/// it, does: the normalised path must stay under the normalised root, which
/// then joins the allowlist.
pub open spec fn library_plan(
    before: Seq<String>,
    after: Seq<String>,
    location: Seq<char>,
    sub_path: Seq<char>,
    r: Result<LoadPlan, ResolveError>,
) -> bool {
    let root = normal_path(location);
    let base = normal_path(location + sub_path);
    if is_under(base, root) {
        &&& r is Ok
        &&& opt_view(r->Ok_0.directory) == Some(base)
        &&& views(r->Ok_0.candidates@) == file_or_extensions(base)
        &&& views(r->Ok_0.directory_candidates@) == index_candidates(base)
        &&& views(after) == with_root(views(before), root)
    } else {
        &&& r == Err::<LoadPlan, ResolveError>(ResolveError::SandboxViolation)
        &&& after == before
    }
}

/// `r` is what the specifier `specifier`, imported from the module at the URL
/// `referrer`, resolves to.
pub open spec fn resolves_to(
    specifier: Seq<char>,
    referrer: Seq<char>,
    r: Result<ModuleRequest, ResolveError>,
) -> bool {
    match url_of_specifier(specifier, referrer) {
        None => r == Err::<ModuleRequest, ResolveError>(ResolveError::InvalidSpecifier),
        Some((scheme, path, file_path)) => {
            if scheme == "file"@ {
                match file_path {
                    Some(f) => r matches Ok(ModuleRequest::File(p)) && p@ == f,
                    None => r == Err::<ModuleRequest, ResolveError>(ResolveError::InvalidSpecifier),
                }
            } else if scheme == "lib"@ {
                match r {
                    Ok(ModuleRequest::Lib { library, sub_path }) => library@ == path.subrange(
                        0,
                        lib_name_end(path),
                    ) && sub_path@ == path.subrange(lib_name_end(path), path.len() as int),
                    _ => false,
                }
            } else {
                r matches Err(ResolveError::UnsupportedScheme(name)) && name@ == scheme
            }
        },
    }
}

/// `roots` with `root` added unless a root equal to it is already there.
pub open spec fn with_root(roots: Seq<Seq<char>>, root: Seq<char>) -> Seq<Seq<char>> {
    if roots.contains(root) {
        roots
    } else {
        roots.push(root)
    }
}

/// How a source of the media type named `name` becomes runnable, if it can.
pub fn kind_for_media_type(name: &str) -> (r: Option<MediaKind>)
    ensures
        r == kind_of_media_name(name@),
{
    if same_text(name, "JSX") || same_text(name, "TypeScript") || same_text(name, "Mts")
        || same_text(name, "Cts") || same_text(name, "Dts") || same_text(name, "Dmts")
        || same_text(name, "Dcts") || same_text(name, "TSX") {
        Some(MediaKind::Transpiled)
    } else if same_text(name, "JavaScript") || same_text(name, "Mjs") || same_text(name, "Cjs") {
        Some(MediaKind::JavaScript)
    } else {
        None
    }
}

/// How the file at `path` becomes runnable, by its media type.
pub fn media_kind(path: &str) -> (r: Option<MediaKind>)
    ensures
        r == media_kind_of(path@),
{
    let name = media_type_of_path(path);
    kind_for_media_type(name.as_str())
}

/// Turns the source `code` read from `path` into runnable text: native source
/// as it is, other known kinds transpiled after leading byte-order marks are
/// dropped.
pub fn load_module_from_file(path: &str, code: String) -> (r: Result<String, ResolveError>)
    ensures
        match media_kind_of(path@) {
            None => r == Err::<String, ResolveError>(ResolveError::UnsupportedMediaType),
            Some(MediaKind::JavaScript) => r == Ok::<String, ResolveError>(code),
            Some(MediaKind::Transpiled) => match transpiled_file(path@, without_boms(code@)) {
                Some(t) => r is Ok && r->Ok_0@ == t,
                None => r == Err::<String, ResolveError>(ResolveError::TranspileFailed),
            },
        },
{
    match media_kind(path) {
        None => Err(ResolveError::UnsupportedMediaType),
        Some(MediaKind::JavaScript) => Ok(code),
        Some(MediaKind::Transpiled) => match transpile_file_source(path, strip_boms(code.as_str())) {
            Some(t) => Ok(t),
            None => Err(ResolveError::TranspileFailed),
        },
    }
}

/// Transpiles the TypeScript source of a built-in extension module named `name`.
pub fn transpile_extension(name: &str, code: &str) -> (r: Result<String, ResolveError>)
    ensures
        match transpiled_typescript(name@, without_boms(code@)) {
            Some(t) => r is Ok && r->Ok_0@ == t,
            None => r == Err::<String, ResolveError>(ResolveError::TranspileFailed),
        },
{
    match transpile_typescript_source(name, strip_boms(code)) {
        Some(t) => Ok(t),
        None => Err(ResolveError::TranspileFailed),
    }
}

/// Whether no component of `p` after a slash is `.` or `..`.
fn has_no_dot_segments(p: &str) -> (r: bool)
    ensures
        r == no_dot_segments(p@),
{
    let n = p.unicode_len();
    let mut i: usize = 0;
    while i < n
        invariant
            n == p@.len(),
            i <= n,
            forall|k: int| 0 <= k < i && p@[k] == '/' ==> !dot_segment_at(p@, k + 1),
        decreases n - i,
    {
        if p.get_char(i) == '/' && i + 1 < n && p.get_char(i + 1) == '.' {
            if i + 2 == n || p.get_char(i + 2) == '/' {
                return false;
            }
            if p.get_char(i + 2) == '.' && (i + 3 == n || p.get_char(i + 3) == '/') {
                return false;
            }
        }
        i += 1;
    }
    true
}

/// The first slash of `s` at or after `from`, or the length of `s`.
fn find_slash(s: &str, from: usize) -> (r: usize)
    requires
        from <= s@.len(),
    ensures
        r == next_slash(s@, from as int),
{
    let n = s.unicode_len();
    let mut i = from;
    while i < n
        invariant
            n == s@.len(),
            from <= i <= n,
            next_slash(s@, from as int) == next_slash(s@, i as int),
        decreases n - i,
    {
        if s.get_char(i) == '/' {
            return i;
        }
        i += 1;
    }
    i
}

proof fn lemma_next_slash_bounds(s: Seq<char>, from: int)
    requires
        0 <= from <= s.len(),
    ensures
        from <= next_slash(s, from) <= s.len(),
    decreases s.len() - from,
{
    if from < s.len() && s[from] != '/' {
        lemma_next_slash_bounds(s, from + 1);
    }
}

/// Where the extension of the file name of `p` starts, or its length.
fn stem_len(p: &str) -> (r: usize)
    ensures
        r == stem_end(p@),
        r <= p@.len(),
{
    let n = p.unicode_len();
    let mut slash: usize = 0;
    let mut dot: usize = 0;
    let mut i: usize = 0;
    while i < n
        invariant
            n == p@.len(),
            i <= n,
            slash == last_of(p@, '/', i as int) + 1,
            dot == last_of(p@, '.', i as int) + 1,
            slash <= i,
            dot <= i,
        decreases n - i,
    {
        let c = p.get_char(i);
        if c == '/' {
            slash = i + 1;
        }
        if c == '.' {
            dot = i + 1;
        }
        i += 1;
    }
    if dot > slash && dot - slash > 1 {
        dot - 1
    } else {
        n
    }
}

/// The candidates of `with_extensions(base)`, built.
fn push_with_extensions(out: &mut Vec<String>, base: &str)
    ensures
        views(final(out)@) == views(old(out)@) + with_extensions(base@),
{
    proof {
        reveal_strlit(".ts");
        reveal_strlit(".tsx");
        reveal_strlit(".js");
        reveal_strlit(".jsx");
        assert(".ts"@ =~= seq!['.', 't', 's']);
        assert(".tsx"@ =~= seq!['.', 't', 's', 'x']);
        assert(".js"@ =~= seq!['.', 'j', 's']);
        assert(".jsx"@ =~= seq!['.', 'j', 's', 'x']);
    }
    let ghost start = views(out@);
    let end = stem_len(base);
    let stem = base.substring_char(0, end);
    let c = String::from_str(stem).concat(".ts");
    let ghost v = out@;
    out.push(c);
    assert(views(out@) =~= views(v).push(c@));
    let c = String::from_str(stem).concat(".tsx");
    let ghost v = out@;
    out.push(c);
    assert(views(out@) =~= views(v).push(c@));
    let c = String::from_str(stem).concat(".js");
    let ghost v = out@;
    out.push(c);
    assert(views(out@) =~= views(v).push(c@));
    let c = String::from_str(stem).concat(".jsx");
    let ghost v = out@;
    out.push(c);
    assert(views(out@) =~= views(v).push(c@));
    assert(views(out@) =~= start + with_extensions(base@));
}

/// The path of a command's entry module: the entry point joined to the
/// command's folder, normalised.
pub open spec fn entry_module_path(c: Command) -> Seq<char> {
    path_of(normalize(split_path(c.location@) + split_path(c.info.entry_point@)))
}

impl Command {
    /// The specifier of the command's entry module, the `file` URL of its path.
    pub fn get_deno_module_specifier(&self) -> (r: Result<String, ResolveError>)
        ensures
            match file_url(entry_module_path(*self)) {
                Some(u) => r is Ok && r->Ok_0@ == u,
                None => r == Err::<String, ResolveError>(ResolveError::InvalidSpecifier),
            },
    {
        let mut segs = split_segments(self.location.as_str());
        let tail = split_segments(self.info.entry_point.as_str());
        let ghost head = views(segs@);
        let mut j: usize = 0;
        while j < tail.len()
            invariant
                j <= tail@.len(),
                views(segs@) == head + views(tail@.subrange(0, j as int)),
            decreases tail@.len() - j,
        {
            let ghost before = segs@;
            segs.push(tail[j].clone());
            assert(views(tail@.subrange(0, j + 1)) =~= views(tail@.subrange(0, j as int)).push(
                tail@[j as int]@,
            ));
            assert(views(segs@) =~= views(before).push(tail@[j as int]@));
            j += 1;
        }
        assert(tail@.subrange(0, tail@.len() as int) =~= tail@);
        let normal = normalize_segments(&segs);
        let path = join_segments(&normal);
        match file_url_of_path(path.as_str()) {
            Some(u) => Ok(u),
            None => Err(ResolveError::InvalidSpecifier),
        }
    }
}

/// The absolute, normalised form of the path `p`.
pub fn normalized_path(p: &str) -> (r: String)
    ensures
        r@ == normal_path(p@),
{
    let segs = split_segments(p);
    let normal = normalize_segments(&segs);
    join_segments(&normal)
}

/// The module loader of one run: the allowlist of roots it may read under and
/// the snapshot of the library table taken when the run started.
pub struct SnipModuleLoader {
    allowed_locations: Vec<String>,
    libraries: LibrarySnapshot,
}

impl SnipModuleLoader {
    /// The roots that files may be read under.
    pub closed spec fn allowed(&self) -> Seq<String> {
        self.allowed_locations@
    }

    /// The libraries this run can import from.
    pub closed spec fn snapshot(&self) -> Seq<Library> {
        self.libraries.libraries()
    }

    /// Library names of the snapshot are keys: each occurs once.
    pub open spec fn wf(&self) -> bool {
        names_unique(self.snapshot())
    }

    /// A loader whose only root is the script's own folder, normalised.
    pub fn new(script_path: String, libraries: LibrarySnapshot) -> (r: SnipModuleLoader)
        requires
            libraries.wf(),
        ensures
            r.wf(),
            r.allowed().len() == 1,
            r.allowed()[0]@ == normal_path(script_path@),
            r.snapshot() == libraries.libraries(),
    {
        let mut allowed_locations: Vec<String> = Vec::new();
        allowed_locations.push(normalized_path(script_path.as_str()));
        SnipModuleLoader { allowed_locations, libraries }
    }

    /// Maps `specifier`, imported by the module at the URL `referrer`, to a
    /// file of the script's tree or a file of a library. Nothing is read.
    pub fn resolve(&self, specifier: &str, referrer: &str) -> (r: Result<ModuleRequest, ResolveError>)
        ensures
            resolves_to(specifier@, referrer@, r),
    {
        proof {
            reveal_strlit("./");
            reveal_strlit("../");
            reveal_strlit("/");
            reveal_strlit("file");
            reveal_strlit("lib");
            assert("./"@ =~= seq!['.', '/']);
            assert("../"@ =~= seq!['.', '.', '/']);
            assert("/"@ =~= seq!['/']);
        }
        let parts = match parse_url(specifier) {
            Some(u) => Some(u),
            None => {
                if starts_with_text(specifier, "./") || starts_with_text(specifier, "../")
                    || starts_with_text(specifier, "/") {
                    join_url(referrer, specifier)
                } else {
                    None
                }
            },
        };
        match parts {
            None => Err(ResolveError::InvalidSpecifier),
            Some(u) => {
                if same_text(u.scheme.as_str(), "file") {
                    match u.file_path {
                        Some(f) => Ok(ModuleRequest::File(f)),
                        None => Err(ResolveError::InvalidSpecifier),
                    }
                } else if same_text(u.scheme.as_str(), "lib") {
                    let path = u.path.as_str();
                    let m = path.unicode_len();
                    let first = find_slash(path, 0);
                    proof {
                        lemma_next_slash_bounds(path@, 0);
                    }
                    let end = if m > 0 && path.get_char(0) == '@' && first < m {
                        proof {
                            lemma_next_slash_bounds(path@, first + 1);
                        }
                        find_slash(path, first + 1)
                    } else {
                        first
                    };
                    let library = path.substring_char(0, end).to_owned();
                    let sub_path = path.substring_char(end, m).to_owned();
                    Ok(ModuleRequest::Lib { library, sub_path })
                } else {
                    Err(ResolveError::UnsupportedScheme(u.scheme))
                }
            },
        }
    }

    /// Where to look for the module of a request. A file request outside the
    /// sandbox fails before anything is probed. A library request fails where
    /// this run's snapshot has no such library, or where the normalised path
    /// leaves the library's root; otherwise the library's root joins the
    /// allowlist.
    pub fn plan_load(&mut self, request: &ModuleRequest) -> (r: Result<LoadPlan, ResolveError>)
        requires
            old(self).wf(),
        ensures
            final(self).wf(),
            final(self).snapshot() == old(self).snapshot(),
            match request {
                ModuleRequest::File(p) => {
                    &&& final(self).allowed() == old(self).allowed()
                    &&& if sandbox_allows(old(self).allowed(), p@) {
                        &&& r is Ok
                        &&& r->Ok_0.directory is None
                        &&& views(r->Ok_0.candidates@) == file_candidates(p@)
                        &&& r->Ok_0.directory_candidates@.len() == 0
                    } else {
                        r == Err::<LoadPlan, ResolveError>(ResolveError::SandboxViolation)
                    }
                },
                ModuleRequest::Lib { library, sub_path } => {
                    if has_library_name(old(self).snapshot(), library@) {
                        forall|i: int|
                            0 <= i < old(self).snapshot().len() && old(self).snapshot()[i].info.name@
                                == library@ ==> library_plan(
                                old(self).allowed(),
                                final(self).allowed(),
                                old(self).snapshot()[i].location@,
                                sub_path@,
                                r,
                            )
                    } else {
                        &&& final(self).allowed() == old(self).allowed()
                        &&& r matches Err(ResolveError::LibraryNotFound(name)) && name@ == library@
                    }
                },
            },
    {
        match request {
            ModuleRequest::File(p) => {
                if !self.is_allowed(p.as_str()) {
                    return Err(ResolveError::SandboxViolation);
                }
                let mut out: Vec<String> = Vec::new();
                let name = media_type_of_path(p.as_str());
                if same_text(name.as_str(), "Unknown") {
                    push_with_extensions(&mut out, p.as_str());
                    assert(views(out@) =~= with_extensions(p@));
                } else {
                    out.push(p.clone());
                    assert(views(out@) =~= seq![p@]);
                }
                Ok(LoadPlan { directory: None, candidates: out, directory_candidates: Vec::new() })
            },
            ModuleRequest::Lib { library, sub_path } => {
                let found = self.libraries.get(library.as_str());
                match found {
                    None => Err(ResolveError::LibraryNotFound(library.clone())),
                    Some(lib) => {
                        let ghost i0 = choose|i: int|
                            0 <= i < self.libraries.libraries().len()
                                && self.libraries.libraries()[i] == *lib
                                && self.libraries.libraries()[i].info.name@ == library@;
                        proof {
                            assert forall|i: int|
                                0 <= i < self.libraries.libraries().len()
                                    && self.libraries.libraries()[i].info.name@ == library@ implies i
                                == i0 by {
                                if i != i0 {
                                    assert(self.libraries.libraries()[i].info.name@
                                        != self.libraries.libraries()[i0].info.name@);
                                }
                            }
                        }
                        let root = normalized_path(lib.location.as_str());
                        let joined = lib.location.clone().concat(sub_path.as_str());
                        let base = normalized_path(joined.as_str());
                        if !path_is_under(base.as_str(), root.as_str()) {
                            return Err(ResolveError::SandboxViolation);
                        }
                        let ghost roots = views(self.allowed_locations@);
                        let mut known = false;
                        let mut i: usize = 0;
                        while i < self.allowed_locations.len()
                            invariant
                                i <= self.allowed_locations@.len(),
                                roots == views(self.allowed_locations@),
                                known ==> roots.contains(root@),
                                !known ==> forall|k: int| 0 <= k < i ==> roots[k] != root@,
                            decreases self.allowed_locations@.len() - i,
                        {
                            if self.allowed_locations[i] == root {
                                assert(roots[i as int] == root@);
                                known = true;
                            }
                            i += 1;
                        }
                        if !known {
                            self.allowed_locations.push(root);
                            assert(views(self.allowed_locations@) =~= roots.push(root@));
                        }
                        proof {
                            reveal_strlit("/index");
                            assert("/index"@ =~= seq!['/', 'i', 'n', 'd', 'e', 'x']);
                        }
                        let mut candidates: Vec<String> = Vec::new();
                        candidates.push(base.clone());
                        push_with_extensions(&mut candidates, base.as_str());
                        assert(views(candidates@) =~= file_or_extensions(base@));
                        let index = base.clone().concat("/index");
                        let mut directory_candidates: Vec<String> = Vec::new();
                        directory_candidates.push(index.clone());
                        push_with_extensions(&mut directory_candidates, index.as_str());
                        assert(views(directory_candidates@) =~= index_candidates(base@));
                        Ok(LoadPlan { directory: Some(base), candidates, directory_candidates })
                    },
                }
            },
        }
    }

    /// Decides whether the chosen file may be read and how it becomes runnable.
    /// The sandbox is checked on the path itself, whatever scheme led to it.
    pub fn finish_load(&self, path: &str) -> (r: Result<MediaKind, ResolveError>)
        ensures
            !sandbox_allows(self.allowed(), path@) <==> r == Err::<MediaKind, ResolveError>(
                ResolveError::SandboxViolation,
            ),
            sandbox_allows(self.allowed(), path@) ==> r == match media_kind_of(path@) {
                Some(k) => Ok(k),
                None => Err(ResolveError::UnsupportedMediaType),
            },
    {
        if !self.is_allowed(path) {
            return Err(ResolveError::SandboxViolation);
        }
        match media_kind(path) {
            Some(k) => Ok(k),
            None => Err(ResolveError::UnsupportedMediaType),
        }
    }

    /// Whether the sandbox lets the file at `path` be read.
    pub fn is_allowed(&self, path: &str) -> (r: bool)
        ensures
            r == sandbox_allows(self.allowed(), path@),
    {
        if !has_no_dot_segments(path) {
            return false;
        }
        let mut i: usize = 0;
        while i < self.allowed_locations.len()
            invariant
                i <= self.allowed_locations@.len(),
                no_dot_segments(path@),
                forall|k: int| 0 <= k < i ==> !is_under(path@, self.allowed_locations@[k]@),
            decreases self.allowed_locations@.len() - i,
        {
            if path_is_under(path, self.allowed_locations[i].as_str()) {
                assert(is_under(path@, self.allowed_locations@[i as int]@));
                return true;
            }
            i += 1;
        }
        false
    }
}

} // verus!
