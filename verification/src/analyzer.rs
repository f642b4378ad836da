//! Finding the imports between the files of a project.
//!
//! Each line of a source file is held against three patterns: an import of
//! JavaScript or TypeScript, a Python `from ... import`, and a Python
//! `import`. What a pattern names is resolved against the list of known files;
//! a name that leads to no known file makes no edge.
use vstd::prelude::*;
use vstd::string::StringExecFns;
use crate::models::DependencyEdge;
use crate::pattern::{
    captures, compile, compiled_from, describe_error, group, group_of, groups_view, regex_captures,
    regex_is_valid,
};
use crate::text::{
    append, concat, copy_chars, dedup, dedup_of, ends_with_str, find_char, find_char_of, from_chars,
    is_comment_line, is_comment_of, join, join_of, lines, lines_of, list_contains, opt_view,
    replace_char, replace_char_of, rfind_char, rfind_char_of, split_char, split_of, string_views,
    subvec, to_char_lists, to_chars, trim, trim_of, views,
};

verus! {

/// Whether `path` ends like a source file whose imports are read.
pub open spec fn is_code_file_of(path: Seq<char>) -> bool {
    ".ts"@.is_suffix_of(path) || ".tsx"@.is_suffix_of(path) || ".js"@.is_suffix_of(path)
        || ".jsx"@.is_suffix_of(path) || ".mjs"@.is_suffix_of(path) || ".cjs"@.is_suffix_of(path)
        || ".py"@.is_suffix_of(path) || ".rs"@.is_suffix_of(path) || ".vue"@.is_suffix_of(path)
        || ".svelte"@.is_suffix_of(path)
}

/// Whether `path` ends like a source file whose imports are read.
pub fn is_code_file(path: &Vec<char>) -> (r: bool)
    ensures
        r == is_code_file_of(path@),
{
    ends_with_str(path, ".ts") || ends_with_str(path, ".tsx") || ends_with_str(path, ".js")
        || ends_with_str(path, ".jsx") || ends_with_str(path, ".mjs") || ends_with_str(
        path,
        ".cjs",
    ) || ends_with_str(path, ".py") || ends_with_str(path, ".rs") || ends_with_str(path, ".vue")
        || ends_with_str(path, ".svelte")
}

// ---------------------------------------------------------------------------
// Paths
// ---------------------------------------------------------------------------
/// The segments that are left of `segments` once `.` and empty segments are
/// dropped and each `..` has taken away the segment before it.
pub open spec fn normalize_parts_of(segments: Seq<Seq<char>>) -> Seq<Seq<char>>
    decreases segments.len(),
{
    if segments.len() == 0 {
        Seq::empty()
    } else {
        let rest = normalize_parts_of(segments.drop_last());
        let seg = segments.last();
        if seg == "."@ || seg.len() == 0 {
            rest
        } else if seg == ".."@ {
            if rest.len() > 0 {
                rest.drop_last()
            } else {
                rest
            }
        } else {
            rest.push(seg)
        }
    }
}

/// The path `path` without `.` segments, empty segments and `..` segments.
pub open spec fn normalize_path_of(path: Seq<char>) -> Seq<char> {
    join_of(normalize_parts_of(split_of(path, '/')), "/"@)
}

/// Normalizes a path: `.` and empty segments are dropped, and each `..`
/// takes away the segment before it; a `..` with nothing before it is
/// dropped too.
pub fn normalize_path(path: &str) -> (r: String)
    ensures
        r@ == normalize_path_of(path@),
{
    from_chars(&normalize_chars(&to_chars(path)))
}

/// Normalizes a path.
pub fn normalize_chars(path: &Vec<char>) -> (r: Vec<char>)
    ensures
        r@ == normalize_path_of(path@),
{
    let segments = split_char(path, '/');
    let dot = to_chars(".");
    let dotdot = to_chars("..");
    let mut parts: Vec<Vec<char>> = Vec::new();
    let mut i: usize = 0;
    while i < segments.len()
        invariant
            i <= segments.len(),
            dot@ == "."@,
            dotdot@ == ".."@,
            views(parts@) == normalize_parts_of(views(segments@).take(i as int)),
        decreases segments.len() - i,
    {
        let ghost before = views(parts@);
        assert(views(segments@).take(i + 1).drop_last() =~= views(segments@).take(i as int));
        if crate::text::chars_eq(&segments[i], &dot) || segments[i].len() == 0 {
        } else if crate::text::chars_eq(&segments[i], &dotdot) {
            if parts.len() > 0 {
                parts.pop();
                assert(views(parts@) =~= before.drop_last());
            }
        } else {
            parts.push(copy_chars(&segments[i]));
            assert(views(parts@) =~= before.push(segments@[i as int]@));
        }
        i += 1;
    }
    assert(views(segments@).take(segments.len() as int) =~= views(segments@));
    join(&parts, &to_chars("/"))
}

/// The folder of `path`: what stands before its last `/`, or nothing.
pub open spec fn parent_of(path: Seq<char>) -> Seq<char> {
    match rfind_char_of(path, '/') {
        Some(pos) => path.subrange(0, pos),
        None => Seq::empty(),
    }
}

/// The folder of `path`: what stands before its last `/`, or nothing.
pub fn parent(path: &Vec<char>) -> (r: Vec<char>)
    ensures
        r@ == parent_of(path@),
{
    match rfind_char(path, '/') {
        Some(pos) => subvec(path, 0, pos),
        None => Vec::new(),
    }
}

/// The folder that lies `levels` above `dir`.
pub open spec fn ancestor_of(dir: Seq<char>, levels: nat) -> Seq<char>
    decreases levels,
{
    if levels == 0 {
        dir
    } else {
        ancestor_of(parent_of(dir), (levels - 1) as nat)
    }
}

/// The number of characters from `i` on up to the first that is not `c`.
pub open spec fn count_run(s: Seq<char>, c: char, i: int) -> nat
    decreases s.len() - i,
{
    if 0 <= i < s.len() && s[i] == c {
        1 + count_run(s, c, i + 1)
    } else {
        0
    }
}

/// `base` where `dir` is empty, else `dir/base`.
pub open spec fn join_path_of(dir: Seq<char>, base: Seq<char>) -> Seq<char> {
    if dir.len() == 0 {
        base
    } else {
        dir + "/"@ + base
    }
}

/// `base` where `dir` is empty, else `dir/base`.
pub fn join_path(dir: &Vec<char>, base: &Vec<char>) -> (r: Vec<char>)
    ensures
        r@ == join_path_of(dir@, base@),
{
    if dir.len() == 0 {
        copy_chars(base)
    } else {
        let mut r = copy_chars(dir);
        append(&mut r, &to_chars("/"));
        append(&mut r, base);
        r
    }
}

// ---------------------------------------------------------------------------
// Resolving a name against the known files
// ---------------------------------------------------------------------------
/// The first of `candidates` that is a known file.
pub open spec fn first_known_of(candidates: Seq<Seq<char>>, known: Seq<Seq<char>>) -> Option<
    Seq<char>,
>
    decreases candidates.len(),
{
    if candidates.len() == 0 {
        None
    } else {
        match first_known_of(candidates.drop_last(), known) {
            Some(c) => Some(c),
            None => if known.contains(candidates.last()) {
                Some(candidates.last())
            } else {
                None
            },
        }
    }
}

/// The first of `candidates` that is a known file.
pub fn first_known(candidates: &Vec<Vec<char>>, known: &Vec<Vec<char>>) -> (r: Option<Vec<char>>)
    ensures
        opt_view(r) == first_known_of(views(candidates@), views(known@)),
{
    let mut i: usize = 0;
    while i < candidates.len()
        invariant
            i <= candidates.len(),
            first_known_of(views(candidates@).take(i as int), views(known@)) is None,
        decreases candidates.len() - i,
    {
        assert(views(candidates@).take(i + 1).drop_last() =~= views(candidates@).take(i as int));
        if list_contains(known, &candidates[i]) {
            proof {
                lemma_first_known_prefix(views(candidates@), views(known@), i + 1);
            }
            return Some(copy_chars(&candidates[i]));
        }
        i += 1;
    }
    assert(views(candidates@).take(candidates.len() as int) =~= views(candidates@));
    None
}

/// A hit among the first `k` candidates is the hit among all.
pub proof fn lemma_first_known_prefix(candidates: Seq<Seq<char>>, known: Seq<Seq<char>>, k: int)
    requires
        0 <= k <= candidates.len(),
        first_known_of(candidates.take(k), known) is Some,
    ensures
        first_known_of(candidates, known) == first_known_of(candidates.take(k), known),
    decreases candidates.len(),
{
    if k < candidates.len() {
        assert(candidates.drop_last().take(k) =~= candidates.take(k));
        lemma_first_known_prefix(candidates.drop_last(), known, k);
    } else {
        assert(candidates.take(k) =~= candidates);
    }
}

/// The files that a relative import of JavaScript or TypeScript may mean, in
/// the order in which they are tried: the path itself, the path with a
/// source ending, and the index file of the path as a folder.
pub open spec fn js_candidates_of(normalized: Seq<char>) -> Seq<Seq<char>> {
    seq![
        normalized,
        normalized + ".ts"@,
        normalized + ".tsx"@,
        normalized + ".js"@,
        normalized + ".jsx"@,
        normalized + ".vue"@,
        normalized + "/index.ts"@,
        normalized + "/index.tsx"@,
        normalized + "/index.js"@,
        normalized + "/index.jsx"@,
    ]
}

/// The known file that the relative import `import_path` in a file of the
/// folder `source_dir` means.
pub open spec fn resolve_js_import_of(
    source_dir: Seq<char>,
    import_path: Seq<char>,
    known: Seq<Seq<char>>,
) -> Option<Seq<char>> {
    first_known_of(
        js_candidates_of(normalize_path_of(join_path_of(source_dir, import_path))),
        known,
    )
}

fn with_ending(base: &Vec<char>, ending: &str) -> (r: Vec<char>)
    ensures
        r@ == base@ + ending@,
{
    concat(base, &to_chars(ending))
}

/// Resolves a relative import of JavaScript or TypeScript against the known
/// files. The first candidate that is known wins; `None` where none is.
pub fn resolve_js_import(source_dir: &Vec<char>, import_path: &Vec<char>, known: &Vec<Vec<char>>)
    -> (r: Option<Vec<char>>)
    ensures
        opt_view(r) == resolve_js_import_of(source_dir@, import_path@, views(known@)),
{
    let normalized = normalize_chars(&join_path(source_dir, import_path));
    let mut candidates: Vec<Vec<char>> = Vec::new();
    candidates.push(copy_chars(&normalized));
    candidates.push(with_ending(&normalized, ".ts"));
    candidates.push(with_ending(&normalized, ".tsx"));
    candidates.push(with_ending(&normalized, ".js"));
    candidates.push(with_ending(&normalized, ".jsx"));
    candidates.push(with_ending(&normalized, ".vue"));
    candidates.push(with_ending(&normalized, "/index.ts"));
    candidates.push(with_ending(&normalized, "/index.tsx"));
    candidates.push(with_ending(&normalized, "/index.js"));
    candidates.push(with_ending(&normalized, "/index.jsx"));
    assert(views(candidates@) =~= js_candidates_of(normalized@));
    first_known(&candidates, known)
}

/// The files that a Python module may be: the module file, then the package
/// file of the module as a folder.
pub open spec fn py_candidates_of(base: Seq<char>) -> Seq<Seq<char>> {
    seq![base + ".py"@, base + "/__init__.py"@]
}

/// The known file that the relative Python import `dotted` in a file of the
/// folder `source_dir` means. Each leading dot after the first goes one
/// folder up.
pub open spec fn resolve_py_import_of(
    source_dir: Seq<char>,
    dotted: Seq<char>,
    known: Seq<Seq<char>>,
) -> Option<Seq<char>> {
    let dots = count_run(dotted, '.', 0);
    let name = dotted.subrange(dots as int, dotted.len() as int);
    let base_dir = if dots >= 1 {
        ancestor_of(source_dir, (dots - 1) as nat)
    } else {
        source_dir
    };
    first_known_of(
        py_candidates_of(join_path_of(base_dir, replace_char_of(name, '.', '/'))),
        known,
    )
}

fn py_candidates(base: &Vec<char>) -> (r: Vec<Vec<char>>)
    ensures
        views(r@) == py_candidates_of(base@),
{
    let mut candidates: Vec<Vec<char>> = Vec::new();
    candidates.push(with_ending(base, ".py"));
    candidates.push(with_ending(base, "/__init__.py"));
    assert(views(candidates@) =~= py_candidates_of(base@));
    candidates
}

/// Resolves a relative Python import against the known files.
pub fn resolve_py_import(source_dir: &Vec<char>, dotted: &Vec<char>, known: &Vec<Vec<char>>) -> (r:
    Option<Vec<char>>)
    ensures
        opt_view(r) == resolve_py_import_of(source_dir@, dotted@, views(known@)),
{
    let mut dots: usize = 0;
    while dots < dotted.len() && dotted[dots] == '.'
        invariant
            dots <= dotted.len(),
            count_run(dotted@, '.', 0) == dots + count_run(dotted@, '.', dots as int),
        decreases dotted.len() - dots,
    {
        dots += 1;
    }
    let name = subvec(dotted, dots, dotted.len());
    let mut base_dir = copy_chars(source_dir);
    let mut level: usize = 1;
    while level < dots
        invariant
            1 <= level,
            dots >= 1 ==> level <= dots,
            dots >= 1 ==> ancestor_of(source_dir@, (dots - 1) as nat) == ancestor_of(
                base_dir@,
                (dots - level) as nat,
            ),
            dots < 1 ==> base_dir@ == source_dir@,
        decreases dots - level,
    {
        base_dir = parent(&base_dir);
        level += 1;
    }
    let base = join_path(&base_dir, &replace_char(&name, '.', '/'));
    first_known(&py_candidates(&base), known)
}

/// The files that an absolute Python import may mean: the module and the
/// package of the dotted path, then, where the path has more than one
/// segment, those of the path without its first segment.
pub open spec fn py_absolute_candidates_of(dotted: Seq<char>) -> Seq<Seq<char>> {
    let direct = py_candidates_of(replace_char_of(dotted, '.', '/'));
    match find_char_of(dotted, '.') {
        Some(pos) => {
            let stripped = dotted.subrange(pos + 1, dotted.len() as int);
            if stripped.len() > 0 {
                direct + py_candidates_of(replace_char_of(stripped, '.', '/'))
            } else {
                direct
            }
        },
        None => direct,
    }
}

/// The known file that the absolute Python import `dotted` means.
pub open spec fn resolve_py_absolute_import_of(dotted: Seq<char>, known: Seq<Seq<char>>)
    -> Option<Seq<char>> {
    first_known_of(py_absolute_candidates_of(dotted), known)
}

/// Resolves an absolute Python import against the known files. Where the
/// dotted path leads to no known file, it is tried once more without its
/// first segment, and no further.
pub fn resolve_py_absolute_import(dotted: &Vec<char>, known: &Vec<Vec<char>>) -> (r: Option<
    Vec<char>,
>)
    ensures
        opt_view(r) == resolve_py_absolute_import_of(dotted@, views(known@)),
{
    let mut candidates = py_candidates(&replace_char(dotted, '.', '/'));
    match find_char(dotted, '.') {
        Some(pos) => {
            let stripped = subvec(dotted, pos + 1, dotted.len());
            if stripped.len() > 0 {
                let ghost direct = views(candidates@);
                let more = py_candidates(&replace_char(&stripped, '.', '/'));
                candidates.push(copy_chars(&more[0]));
                candidates.push(copy_chars(&more[1]));
                assert(views(candidates@) =~= direct + views(more@));
            }
        },
        None => {},
    }
    first_known(&candidates, known)
}

// ---------------------------------------------------------------------------
// Imports
// ---------------------------------------------------------------------------
/// The pattern of an import of JavaScript or TypeScript: `import ... from
/// '...'`, whose path is group 1, or `require('...')`, whose path is group 2.
pub const JS_IMPORT_PATTERN: &'static str =
    "(?:import\\s+.*?\\s+from\\s+['\"]([^'\"]+)['\"]|require\\s*\\(\\s*['\"]([^'\"]+)['\"]\\s*\\))";

/// The pattern of a Python `from ... import`; the dotted path is group 1.
pub const PY_FROM_PATTERN: &'static str = "^from\\s+(\\.{0,3}\\w[\\w.]*|\\.+)\\s+import";

/// The pattern of a Python `import`; the dotted path is group 1.
pub const PY_IMPORT_PATTERN: &'static str = "^import\\s+([\\w][\\w.]*)";

/// The three patterns, compiled.
pub struct ImportPatterns {
    js_import: regex::Regex,
    py_from: regex::Regex,
    py_import: regex::Regex,
}

impl ImportPatterns {
    /// Whether the three expressions were compiled from the three patterns.
    pub closed spec fn wf(&self) -> bool {
        &&& compiled_from(self.js_import, JS_IMPORT_PATTERN@)
        &&& compiled_from(self.py_from, PY_FROM_PATTERN@)
        &&& compiled_from(self.py_import, PY_IMPORT_PATTERN@)
    }
}

/// Whether the three patterns are regular expressions.
pub open spec fn patterns_are_valid() -> bool {
    regex_is_valid(JS_IMPORT_PATTERN@) && regex_is_valid(PY_FROM_PATTERN@) && regex_is_valid(
        PY_IMPORT_PATTERN@,
    )
}

/// The heading of the error for a pattern that is no regular expression.
pub open spec fn pattern_error_heading() -> Seq<char> {
    "正则编译失败："@
}

fn pattern_error(e: &regex::Error) -> (r: String)
    ensures
        pattern_error_heading().is_prefix_of(r@),
{
    let detail = describe_error(e);
    let r = String::from_str("正则编译失败：").concat(detail.as_str());
    assert(r@.subrange(0, pattern_error_heading().len() as int) =~= pattern_error_heading());
    r
}

/// Compiles the three patterns. The call fails exactly where one of them is
/// no regular expression, with an error that begins with
/// `pattern_error_heading`.
pub fn compile_patterns() -> (r: Result<ImportPatterns, String>)
    ensures
        r is Ok <==> patterns_are_valid(),
        r matches Ok(p) ==> p.wf(),
        r matches Err(m) ==> pattern_error_heading().is_prefix_of(m@),
{
    let js_import = match compile(JS_IMPORT_PATTERN) {
        Ok(re) => re,
        Err(e) => {
            return Err(pattern_error(&e));
        },
    };
    let py_from = match compile(PY_FROM_PATTERN) {
        Ok(re) => re,
        Err(e) => {
            return Err(pattern_error(&e));
        },
    };
    let py_import = match compile(PY_IMPORT_PATTERN) {
        Ok(re) => re,
        Err(e) => {
            return Err(pattern_error(&e));
        },
    };
    Ok(ImportPatterns { js_import, py_from, py_import })
}

/// The list of the one text of `o`, or the empty list.
pub open spec fn opt_seq(o: Option<Seq<char>>) -> Seq<Seq<char>> {
    match o {
        Some(x) => seq![x],
        None => Seq::empty(),
    }
}

/// The known file that a match of the JavaScript pattern leads to. Only a
/// path that begins with a dot is resolved.
pub open spec fn js_target_of(
    groups: Option<Seq<Option<Seq<char>>>>,
    source_dir: Seq<char>,
    known: Seq<Seq<char>>,
) -> Option<Seq<char>> {
    let raw = match group_of(groups, 1) {
        Some(x) => x,
        None => match group_of(groups, 2) {
            Some(y) => y,
            None => Seq::empty(),
        },
    };
    if raw.len() > 0 && raw[0] == '.' {
        resolve_js_import_of(source_dir, raw, known)
    } else {
        None
    }
}

/// The known file that a match of the `from ... import` pattern leads to: a
/// path that begins with a dot is relative, any other is absolute.
pub open spec fn py_from_target_of(
    groups: Option<Seq<Option<Seq<char>>>>,
    source_dir: Seq<char>,
    known: Seq<Seq<char>>,
) -> Option<Seq<char>> {
    match group_of(groups, 1) {
        Some(dotted) => if dotted.len() > 0 && dotted[0] == '.' {
            resolve_py_import_of(source_dir, dotted, known)
        } else {
            resolve_py_absolute_import_of(dotted, known)
        },
        None => None,
    }
}

/// The known file that a match of the `import` pattern leads to.
pub open spec fn py_import_target_of(
    groups: Option<Seq<Option<Seq<char>>>>,
    known: Seq<Seq<char>>,
) -> Option<Seq<char>> {
    match group_of(groups, 1) {
        Some(dotted) => resolve_py_absolute_import_of(dotted, known),
        None => None,
    }
}

/// The known files that the trimmed line `line` imports, given what the
/// three patterns match in it, each file once. A comment line imports
/// nothing.
pub open spec fn line_targets_of(
    line: Seq<char>,
    source_dir: Seq<char>,
    known: Seq<Seq<char>>,
    js: Option<Seq<Option<Seq<char>>>>,
    py_from: Option<Seq<Option<Seq<char>>>>,
    py_import: Option<Seq<Option<Seq<char>>>>,
) -> Seq<Seq<char>> {
    if is_comment_of(line) {
        Seq::empty()
    } else {
        dedup_of(
            opt_seq(js_target_of(js, source_dir, known)) + opt_seq(
                py_from_target_of(py_from, source_dir, known),
            ) + opt_seq(py_import_target_of(py_import, known)),
        )
    }
}

/// The known files that the trimmed line `line` imports, given what the
/// three patterns match in it: at most one file for each pattern, in the
/// order of the patterns, and no file twice. A comment line imports nothing.
pub fn line_dependencies(
    line: &Vec<char>,
    source_dir: &Vec<char>,
    known: &Vec<Vec<char>>,
    js: &Option<Vec<Option<String>>>,
    py_from: &Option<Vec<Option<String>>>,
    py_import: &Option<Vec<Option<String>>>,
) -> (targets: Vec<Vec<char>>)
    ensures
        views(targets@) == line_targets_of(
            line@,
            source_dir@,
            views(known@),
            groups_view(*js),
            groups_view(*py_from),
            groups_view(*py_import),
        ),
{
    let mut targets: Vec<Vec<char>> = Vec::new();
    if is_comment_line(line) {
        assert(views(targets@) =~= Seq::<Seq<char>>::empty());
        return targets;
    }
    let raw = match group(js, 1) {
        Some(x) => x,
        None => match group(js, 2) {
            Some(y) => y,
            None => Vec::new(),
        },
    };
    let first = if raw.len() > 0 && raw[0] == '.' {
        resolve_js_import(source_dir, &raw, known)
    } else {
        None
    };
    let second = match group(py_from, 1) {
        Some(dotted) => if dotted.len() > 0 && dotted[0] == '.' {
            resolve_py_import(source_dir, &dotted, known)
        } else {
            resolve_py_absolute_import(&dotted, known)
        },
        None => None,
    };
    let third = match group(py_import, 1) {
        Some(dotted) => resolve_py_absolute_import(&dotted, known),
        None => None,
    };
    match first {
        Some(t) => {
            targets.push(t);
        },
        None => {},
    }
    match second {
        Some(t) => {
            targets.push(t);
        },
        None => {},
    }
    match third {
        Some(t) => {
            targets.push(t);
        },
        None => {},
    }
    assert(views(targets@) =~= opt_seq(opt_view(first)) + opt_seq(opt_view(second)) + opt_seq(
        opt_view(third),
    ));
    dedup(&targets)
}

/// The known files that the lines import, in order.
pub open spec fn lines_targets_of(
    lines: Seq<Seq<char>>,
    source_dir: Seq<char>,
    known: Seq<Seq<char>>,
) -> Seq<Seq<char>>
    decreases lines.len(),
{
    if lines.len() == 0 {
        Seq::empty()
    } else {
        let t = trim_of(lines.last());
        lines_targets_of(lines.drop_last(), source_dir, known) + line_targets_of(
            t,
            source_dir,
            known,
            regex_captures(JS_IMPORT_PATTERN@, t),
            regex_captures(PY_FROM_PATTERN@, t),
            regex_captures(PY_IMPORT_PATTERN@, t),
        )
    }
}

/// The known files that the file `path` with the text `content` imports, in
/// the order of its lines. A file that is no source file imports nothing.
pub open spec fn file_targets_of(path: Seq<char>, content: Seq<char>, known: Seq<Seq<char>>)
    -> Seq<Seq<char>> {
    if is_code_file_of(path) {
        lines_targets_of(lines_of(content), parent_of(path), known)
    } else {
        Seq::empty()
    }
}

/// A source file whose text could be read.
#[derive(Debug, Clone, PartialEq, Eq)]
pub struct SourceFile {
    /// The file's path below the project root, with `/` between segments.
    pub relative_path: String,
    /// The file's text.
    pub content: String,
}

/// The edges from `path` to each of `targets`.
pub open spec fn edges_to(path: Seq<char>, targets: Seq<Seq<char>>) -> Seq<(Seq<char>, Seq<char>)> {
    Seq::new(targets.len(), |i: int| (path, targets[i]))
}

/// The imports of the files `sources`, file by file.
pub open spec fn dependencies_of(sources: Seq<SourceFile>, known: Seq<Seq<char>>) -> Seq<
    (Seq<char>, Seq<char>),
>
    decreases sources.len(),
{
    if sources.len() == 0 {
        Seq::empty()
    } else {
        dependencies_of(sources.drop_last(), known) + edges_to(
            sources.last().relative_path@,
            file_targets_of(sources.last().relative_path@, sources.last().content@, known),
        )
    }
}

/// The known files that one file imports, in the order of its lines.
pub fn file_dependencies(patterns: &ImportPatterns, source: &SourceFile, known: &Vec<Vec<char>>)
    -> (targets: Vec<Vec<char>>)
    requires
        patterns.wf(),
    ensures
        views(targets@) == file_targets_of(source.relative_path@, source.content@, views(known@)),
{
    let path = to_chars(source.relative_path.as_str());
    let mut targets: Vec<Vec<char>> = Vec::new();
    if !is_code_file(&path) {
        assert(views(targets@) =~= Seq::<Seq<char>>::empty());
        return targets;
    }
    let source_dir = parent(&path);
    let ls = lines(&to_chars(source.content.as_str()));
    let mut i: usize = 0;
    assert(views(targets@) =~= Seq::<Seq<char>>::empty());
    while i < ls.len()
        invariant
            i <= ls.len(),
            patterns.wf(),
            views(targets@) == lines_targets_of(
                views(ls@).take(i as int),
                source_dir@,
                views(known@),
            ),
        decreases ls.len() - i,
    {
        let ghost before = views(targets@);
        assert(views(ls@).take(i + 1).drop_last() =~= views(ls@).take(i as int));
        let t = trim(&ls[i]);
        let text = from_chars(&t);
        let js = captures(&patterns.js_import, text.as_str());
        let py_from = captures(&patterns.py_from, text.as_str());
        let py_import = captures(&patterns.py_import, text.as_str());
        let found = line_dependencies(&t, &source_dir, known, &js, &py_from, &py_import);
        let mut k: usize = 0;
        assert(views(targets@) =~= before + views(found@).take(0));
        while k < found.len()
            invariant
                k <= found.len(),
                views(targets@) == before + views(found@).take(k as int),
            decreases found.len() - k,
        {
            let ghost cur = views(targets@);
            targets.push(copy_chars(&found[k]));
            assert(views(targets@) =~= cur.push(found@[k as int]@));
            k += 1;
            assert(views(targets@) =~= before + views(found@).take(k as int));
        }
        assert(views(found@).take(found.len() as int) =~= views(found@));
        i += 1;
    }
    assert(views(ls@).take(ls.len() as int) =~= views(ls@));
    targets
}

/// Finds the imports between the files of a project.
///
/// `sources` holds the files whose text could be read, `file_paths` every
/// known file. Each import that leads to a known file makes one edge; the
/// edges stand file by file and line by line: an import that stands on two
/// lines makes two edges, and one line makes no edge twice. The call fails
/// only where the patterns do not compile.
pub fn extract_dependencies(sources: &[SourceFile], file_paths: &[String]) -> (r: Result<
    Vec<DependencyEdge>,
    String,
>)
    ensures
        r is Ok <==> patterns_are_valid(),
        r matches Ok(edges) ==> crate::resolver::edge_views(edges@) == dependencies_of(
            sources@,
            string_views(file_paths@),
        ),
        r matches Err(m) ==> pattern_error_heading().is_prefix_of(m@),
{
    let patterns = match compile_patterns() {
        Ok(p) => p,
        Err(m) => {
            return Err(m);
        },
    };
    let known = to_char_lists(file_paths);
    let mut edges: Vec<DependencyEdge> = Vec::new();
    let mut i: usize = 0;
    assert(crate::resolver::edge_views(edges@) =~= Seq::<(Seq<char>, Seq<char>)>::empty());
    while i < sources.len()
        invariant
            i <= sources.len(),
            patterns.wf(),
            views(known@) == string_views(file_paths@),
            crate::resolver::edge_views(edges@) == dependencies_of(
                sources@.take(i as int),
                views(known@),
            ),
        decreases sources.len() - i,
    {
        let ghost before = crate::resolver::edge_views(edges@);
        assert(sources@.take(i + 1).drop_last() =~= sources@.take(i as int));
        let targets = file_dependencies(&patterns, &sources[i], &known);
        let ghost path = sources@[i as int].relative_path@;
        let mut k: usize = 0;
        assert(crate::resolver::edge_views(edges@) =~= before + edges_to(
            path,
            views(targets@).take(0),
        ));
        while k < targets.len()
            invariant
                k <= targets.len(),
                i < sources.len(),
                path == sources@[i as int].relative_path@,
                crate::resolver::edge_views(edges@) == before + edges_to(
                    path,
                    views(targets@).take(k as int),
                ),
            decreases targets.len() - k,
        {
            let ghost cur = crate::resolver::edge_views(edges@);
            edges.push(
                DependencyEdge {
                    source: sources[i].relative_path.clone(),
                    target: from_chars(&targets[k]),
                },
            );
            assert(crate::resolver::edge_views(edges@) =~= cur.push((path, targets@[k as int]@)));
            k += 1;
            assert(crate::resolver::edge_views(edges@) =~= before + edges_to(
                path,
                views(targets@).take(k as int),
            ));
        }
        assert(views(targets@).take(targets.len() as int) =~= views(targets@));
        i += 1;
    }
    assert(sources@.take(sources.len() as int) =~= sources@);
    Ok(edges)
}

/// A comment line makes no edge, whatever the patterns match in it.
pub proof fn lemma_comment_line_makes_no_edge(
    line: Seq<char>,
    source_dir: Seq<char>,
    known: Seq<Seq<char>>,
    js: Option<Seq<Option<Seq<char>>>>,
    py_from: Option<Seq<Option<Seq<char>>>>,
    py_import: Option<Seq<Option<Seq<char>>>>,
)
    requires
        is_comment_of(line),
    ensures
        line_targets_of(line, source_dir, known, js, py_from, py_import) == Seq::<
            Seq<char>,
        >::empty(),
{
}

/// Every edge leads to a known file.
pub proof fn lemma_line_targets_are_known(
    line: Seq<char>,
    source_dir: Seq<char>,
    known: Seq<Seq<char>>,
    js: Option<Seq<Option<Seq<char>>>>,
    py_from: Option<Seq<Option<Seq<char>>>>,
    py_import: Option<Seq<Option<Seq<char>>>>,
    k: int,
)
    requires
        0 <= k < line_targets_of(line, source_dir, known, js, py_from, py_import).len(),
    ensures
        known.contains(line_targets_of(line, source_dir, known, js, py_from, py_import)[k]),
{
    let found = opt_seq(js_target_of(js, source_dir, known)) + opt_seq(
        py_from_target_of(py_from, source_dir, known),
    ) + opt_seq(py_import_target_of(py_import, known));
    crate::text::lemma_dedup(found);
    let target = line_targets_of(line, source_dir, known, js, py_from, py_import)[k];
    assert(dedup_of(found).contains(target));
    assert(found.contains(target));
    lemma_first_known_is_known(
        js_candidates_of(
            normalize_path_of(
                join_path_of(
                    source_dir,
                    match group_of(js, 1) {
                        Some(x) => x,
                        None => match group_of(js, 2) {
                            Some(y) => y,
                            None => Seq::empty(),
                        },
                    },
                ),
            ),
        ),
        known,
    );
    match group_of(py_from, 1) {
        Some(dotted) => {
            let dots = count_run(dotted, '.', 0);
            let name = dotted.subrange(dots as int, dotted.len() as int);
            let base_dir = if dots >= 1 {
                ancestor_of(source_dir, (dots - 1) as nat)
            } else {
                source_dir
            };
            lemma_first_known_is_known(
                py_candidates_of(join_path_of(base_dir, replace_char_of(name, '.', '/'))),
                known,
            );
            lemma_first_known_is_known(py_absolute_candidates_of(dotted), known);
        },
        None => {},
    }
    match group_of(py_import, 1) {
        Some(dotted) => {
            lemma_first_known_is_known(py_absolute_candidates_of(dotted), known);
        },
        None => {},
    }
}

/// A hit is a known file.
pub proof fn lemma_first_known_is_known(candidates: Seq<Seq<char>>, known: Seq<Seq<char>>)
    ensures
        first_known_of(candidates, known) matches Some(c) ==> known.contains(c),
    decreases candidates.len(),
{
    if candidates.len() > 0 {
        lemma_first_known_is_known(candidates.drop_last(), known);
    }
}

/// Every target among the lines of a file is a known file.
pub proof fn lemma_lines_targets_are_known(
    lines: Seq<Seq<char>>,
    source_dir: Seq<char>,
    known: Seq<Seq<char>>,
    k: int,
)
    requires
        0 <= k < lines_targets_of(lines, source_dir, known).len(),
    ensures
        known.contains(lines_targets_of(lines, source_dir, known)[k]),
    decreases lines.len(),
{
    if lines.len() > 0 {
        let rest = lines_targets_of(lines.drop_last(), source_dir, known);
        if k < rest.len() {
            lemma_lines_targets_are_known(lines.drop_last(), source_dir, known, k);
        } else {
            let t = trim_of(lines.last());
            lemma_line_targets_are_known(
                t,
                source_dir,
                known,
                regex_captures(JS_IMPORT_PATTERN@, t),
                regex_captures(PY_FROM_PATTERN@, t),
                regex_captures(PY_IMPORT_PATTERN@, t),
                k - rest.len(),
            );
        }
    }
}

/// No edge dangles: every edge leads from one of the files that were read to
/// a known file.
pub proof fn lemma_dependencies_are_known(sources: Seq<SourceFile>, known: Seq<Seq<char>>, k: int)
    requires
        0 <= k < dependencies_of(sources, known).len(),
    ensures
        known.contains(dependencies_of(sources, known)[k].1),
        exists|i: int|
            0 <= i < sources.len() && (#[trigger] sources[i]).relative_path@ == dependencies_of(
                sources,
                known,
            )[k].0,
    decreases sources.len(),
{
    if sources.len() > 0 {
        let rest = dependencies_of(sources.drop_last(), known);
        if k < rest.len() {
            lemma_dependencies_are_known(sources.drop_last(), known, k);
            let i = choose|i: int|
                0 <= i < sources.drop_last().len() && (#[trigger] sources.drop_last()[
                    i
                ]).relative_path@ == rest[k].0;
            assert(sources[i].relative_path@ == rest[k].0);
        } else {
            let last = sources.last();
            if is_code_file_of(last.relative_path@) {
                lemma_lines_targets_are_known(
                    lines_of(last.content@),
                    parent_of(last.relative_path@),
                    known,
                    k - rest.len(),
                );
            }
            assert(sources[sources.len() - 1].relative_path@ == last.relative_path@);
        }
    }
}

} // verus!
