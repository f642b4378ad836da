//! A summary of a project for display: its languages, its technologies and
//! its entry points.
use vstd::prelude::*;
use crate::models::{FileEntry, LanguageStat, ProjectOverview};
use crate::sorting::{is_sorted, sorted_of, stable_sort};
use crate::text::{
    contains_of, contains_str, dedup, dedup_of, ends_with_str, from_chars, last_segment,
    last_segment_of, lines, lines_of, list_contains, rfind_char, rfind_char_of, str_eq,
    string_views, subvec, to_chars, to_strings, views,
};

verus! {

/// The text `s` in lower case, as `str::to_lowercase` gives it.
pub uninterp spec fn lowercase_of(s: Seq<char>) -> Seq<char>;

/// Calls `str::to_lowercase`. The contract names the answer, which depends
/// on the text alone.
#[verifier::external_body]
pub(crate) fn lowercase(s: &str) -> (r: String)
    ensures
        r@ == lowercase_of(s@),
{
    s.to_lowercase()
}

// ---------------------------------------------------------------------------
// Languages
// ---------------------------------------------------------------------------
/// The language of files with the ending `ext`, which is in lower case.
pub open spec fn language_of_extension(ext: Seq<char>) -> Seq<char> {
    if ext == "py"@ {
        "Python"@
    } else if ext == "js"@ {
        "JavaScript"@
    } else if ext == "ts"@ {
        "TypeScript"@
    } else if ext == "tsx"@ {
        "TypeScript (React)"@
    } else if ext == "jsx"@ {
        "JavaScript (React)"@
    } else if ext == "vue"@ {
        "Vue"@
    } else if ext == "rs"@ {
        "Rust"@
    } else if ext == "go"@ {
        "Go"@
    } else if ext == "java"@ {
        "Java"@
    } else if ext == "kt"@ || ext == "kts"@ {
        "Kotlin"@
    } else if ext == "rb"@ {
        "Ruby"@
    } else if ext == "php"@ {
        "PHP"@
    } else if ext == "cs"@ {
        "C#"@
    } else if ext == "cpp"@ || ext == "cc"@ || ext == "cxx"@ {
        "C++"@
    } else if ext == "c"@ || ext == "h"@ {
        "C"@
    } else if ext == "swift"@ {
        "Swift"@
    } else if ext == "html"@ || ext == "htm"@ {
        "HTML"@
    } else if ext == "css"@ {
        "CSS"@
    } else if ext == "scss"@ || ext == "sass"@ {
        "SCSS"@
    } else if ext == "less"@ {
        "Less"@
    } else if ext == "json"@ {
        "JSON"@
    } else if ext == "yaml"@ || ext == "yml"@ {
        "YAML"@
    } else if ext == "toml"@ {
        "TOML"@
    } else if ext == "xml"@ {
        "XML"@
    } else if ext == "sql"@ {
        "SQL"@
    } else if ext == "sh"@ || ext == "bash"@ {
        "Shell"@
    } else if ext == "md"@ || ext == "markdown"@ {
        "Markdown"@
    } else if ext == "txt"@ {
        "Text"@
    } else if ext == "ini"@ || ext == "cfg"@ || ext == "conf"@ {
        "Config"@
    } else if ext == "dockerfile"@ {
        "Dockerfile"@
    } else {
        "Other"@
    }
}

/// The language of files with the ending `ext`, which is in lower case;
/// `Other` for an ending that is not known.
pub fn language_for_extension(ext: &str) -> (r: String)
    ensures
        r@ == language_of_extension(ext@),
{
    let name = if str_eq(ext, "py") {
        "Python"
    } else if str_eq(ext, "js") {
        "JavaScript"
    } else if str_eq(ext, "ts") {
        "TypeScript"
    } else if str_eq(ext, "tsx") {
        "TypeScript (React)"
    } else if str_eq(ext, "jsx") {
        "JavaScript (React)"
    } else if str_eq(ext, "vue") {
        "Vue"
    } else if str_eq(ext, "rs") {
        "Rust"
    } else if str_eq(ext, "go") {
        "Go"
    } else if str_eq(ext, "java") {
        "Java"
    } else if str_eq(ext, "kt") || str_eq(ext, "kts") {
        "Kotlin"
    } else if str_eq(ext, "rb") {
        "Ruby"
    } else if str_eq(ext, "php") {
        "PHP"
    } else if str_eq(ext, "cs") {
        "C#"
    } else if str_eq(ext, "cpp") || str_eq(ext, "cc") || str_eq(ext, "cxx") {
        "C++"
    } else if str_eq(ext, "c") || str_eq(ext, "h") {
        "C"
    } else if str_eq(ext, "swift") {
        "Swift"
    } else if str_eq(ext, "html") || str_eq(ext, "htm") {
        "HTML"
    } else if str_eq(ext, "css") {
        "CSS"
    } else if str_eq(ext, "scss") || str_eq(ext, "sass") {
        "SCSS"
    } else if str_eq(ext, "less") {
        "Less"
    } else if str_eq(ext, "json") {
        "JSON"
    } else if str_eq(ext, "yaml") || str_eq(ext, "yml") {
        "YAML"
    } else if str_eq(ext, "toml") {
        "TOML"
    } else if str_eq(ext, "xml") {
        "XML"
    } else if str_eq(ext, "sql") {
        "SQL"
    } else if str_eq(ext, "sh") || str_eq(ext, "bash") {
        "Shell"
    } else if str_eq(ext, "md") || str_eq(ext, "markdown") {
        "Markdown"
    } else if str_eq(ext, "txt") {
        "Text"
    } else if str_eq(ext, "ini") || str_eq(ext, "cfg") || str_eq(ext, "conf") {
        "Config"
    } else if str_eq(ext, "dockerfile") {
        "Dockerfile"
    } else {
        "Other"
    };
    name.to_string()
}

/// The language of the file `path`: that of its ending, which is what
/// follows the last dot, or the whole path where it has no dot, taken in
/// lower case.
pub open spec fn detect_language_of(path: Seq<char>) -> Seq<char> {
    language_of_extension(lowercase_of(last_segment_of(path, '.')))
}

/// The language of the file `path`, by its ending.
pub fn detect_language(path: &str) -> (r: String)
    ensures
        r@ == detect_language_of(path@),
{
    let ext = from_chars(&last_segment(&to_chars(path), '.'));
    let lower = lowercase(ext.as_str());
    language_for_extension(lower.as_str())
}

// ---------------------------------------------------------------------------
// Entry points
// ---------------------------------------------------------------------------
/// The file names that mark an entry point.
pub open spec fn entry_file_names_of() -> Seq<Seq<char>> {
    seq![
        "main.py"@,
        "app.py"@,
        "manage.py"@,
        "wsgi.py"@,
        "asgi.py"@,
        "index.ts"@,
        "index.js"@,
        "main.ts"@,
        "main.js"@,
        "app.ts"@,
        "app.js"@,
        "main.rs"@,
        "lib.rs"@,
        "main.go"@,
        "Main.java"@,
        "Application.java"@,
    ]
}

fn entry_file_names() -> (r: Vec<Vec<char>>)
    ensures
        views(r@) == entry_file_names_of(),
{
    let mut r: Vec<Vec<char>> = Vec::new();
    r.push(to_chars("main.py"));
    r.push(to_chars("app.py"));
    r.push(to_chars("manage.py"));
    r.push(to_chars("wsgi.py"));
    r.push(to_chars("asgi.py"));
    r.push(to_chars("index.ts"));
    r.push(to_chars("index.js"));
    r.push(to_chars("main.ts"));
    r.push(to_chars("main.js"));
    r.push(to_chars("app.ts"));
    r.push(to_chars("app.js"));
    r.push(to_chars("main.rs"));
    r.push(to_chars("lib.rs"));
    r.push(to_chars("main.go"));
    r.push(to_chars("Main.java"));
    r.push(to_chars("Application.java"));
    assert(views(r@) =~= entry_file_names_of());
    r
}

/// The paths of `paths` whose file name marks an entry point, in order.
pub open spec fn entry_files_of(paths: Seq<Seq<char>>) -> Seq<Seq<char>>
    decreases paths.len(),
{
    if paths.len() == 0 {
        Seq::empty()
    } else {
        let rest = entry_files_of(paths.drop_last());
        if entry_file_names_of().contains(last_segment_of(paths.last(), '/')) {
            rest.push(paths.last())
        } else {
            rest
        }
    }
}

/// The paths of the files.
pub open spec fn entry_paths(entries: Seq<FileEntry>) -> Seq<Seq<char>> {
    Seq::new(entries.len(), |i: int| entries[i].relative_path@)
}

/// The files that look like entry points: those whose name, which is what
/// follows the last `/`, is one of the known names. They are listed in the
/// order of the index.
pub fn detect_entry_files(entries: &[FileEntry]) -> (r: Vec<String>)
    ensures
        string_views(r@) == entry_files_of(entry_paths(entries@)),
{
    let names = entry_file_names();
    let mut found: Vec<Vec<char>> = Vec::new();
    let mut i: usize = 0;
    while i < entries.len()
        invariant
            i <= entries.len(),
            views(names@) == entry_file_names_of(),
            views(found@) == entry_files_of(entry_paths(entries@).take(i as int)),
        decreases entries.len() - i,
    {
        let ghost before = views(found@);
        assert(entry_paths(entries@).take(i + 1).drop_last() =~= entry_paths(entries@).take(
            i as int,
        ));
        let path = to_chars(entries[i].relative_path.as_str());
        if list_contains(&names, &last_segment(&path, '/')) {
            found.push(path);
            assert(views(found@) =~= before.push(entries@[i as int].relative_path@));
        }
        i += 1;
    }
    assert(entry_paths(entries@).take(entries.len() as int) =~= entry_paths(entries@));
    to_strings(&found)
}

// ---------------------------------------------------------------------------
// Technologies
// ---------------------------------------------------------------------------
/// The list `stack` with `tag` at its end, unless it holds `tag` already.
pub open spec fn push_unique_of(stack: Seq<Seq<char>>, tag: Seq<char>) -> Seq<Seq<char>> {
    if stack.contains(tag) {
        stack
    } else {
        stack.push(tag)
    }
}

/// Appends `val` to `vec` unless `vec` holds it already.
pub fn push_unique(vec: &mut Vec<Vec<char>>, val: &str)
    ensures
        views(final(vec)@) == push_unique_of(views(old(vec)@), val@),
{
    let v = to_chars(val);
    if !list_contains(vec, &v) {
        let ghost before = views(vec@);
        vec.push(v);
        assert(views(vec@) =~= before.push(val@));
    }
}

/// The list `stack` after each rule of `rules` was applied in order: a rule
/// is a text to look for and a technology, and it adds the technology where
/// `text` holds what it looks for.
pub open spec fn apply_rules_of(
    stack: Seq<Seq<char>>,
    text: Seq<char>,
    rules: Seq<(Seq<char>, Seq<char>)>,
) -> Seq<Seq<char>>
    decreases rules.len(),
{
    if rules.len() == 0 {
        stack
    } else {
        let rest = apply_rules_of(stack, text, rules.drop_last());
        if contains_of(text, rules.last().0) {
            push_unique_of(rest, rules.last().1)
        } else {
            rest
        }
    }
}

/// The views of a list of rules.
pub open spec fn rule_views(rules: Seq<(&'static str, &'static str)>) -> Seq<
    (Seq<char>, Seq<char>),
> {
    Seq::new(rules.len(), |i: int| (rules[i].0@, rules[i].1@))
}

fn apply_rules(
    stack: &mut Vec<Vec<char>>,
    text: &Vec<char>,
    rules: &Vec<(&'static str, &'static str)>,
)
    ensures
        views(final(stack)@) == apply_rules_of(views(old(stack)@), text@, rule_views(rules@)),
{
    let mut i: usize = 0;
    while i < rules.len()
        invariant
            i <= rules.len(),
            views(stack@) == apply_rules_of(
                views(old(stack)@),
                text@,
                rule_views(rules@).take(i as int),
            ),
        decreases rules.len() - i,
    {
        assert(rule_views(rules@).take(i + 1).drop_last() =~= rule_views(rules@).take(i as int));
        if contains_str(text, rules[i].0) {
            push_unique(stack, rules[i].1);
        }
        i += 1;
    }
    assert(rule_views(rules@).take(rules.len() as int) =~= rule_views(rules@));
}

/// The rules for the files that list the dependencies of a Python project.
pub open spec fn python_rules_of() -> Seq<(Seq<char>, Seq<char>)> {
    seq![
        ("fastapi"@, "FastAPI"@),
        ("django"@, "Django"@),
        ("flask"@, "Flask"@),
        ("sqlalchemy"@, "SQLAlchemy"@),
        ("pydantic"@, "Pydantic"@),
        ("celery"@, "Celery"@),
        ("redis"@, "Redis"@),
        ("pytest"@, "Pytest"@),
        ("alembic"@, "Alembic"@),
        ("uvicorn"@, "Uvicorn"@),
    ]
}

fn python_rules() -> (r: Vec<(&'static str, &'static str)>)
    ensures
        rule_views(r@) == python_rules_of(),
{
    let mut r: Vec<(&'static str, &'static str)> = Vec::new();
    r.push(("fastapi", "FastAPI"));
    r.push(("django", "Django"));
    r.push(("flask", "Flask"));
    r.push(("sqlalchemy", "SQLAlchemy"));
    r.push(("pydantic", "Pydantic"));
    r.push(("celery", "Celery"));
    r.push(("redis", "Redis"));
    r.push(("pytest", "Pytest"));
    r.push(("alembic", "Alembic"));
    r.push(("uvicorn", "Uvicorn"));
    assert(rule_views(r@) =~= python_rules_of());
    r
}

/// The rules for `package.json`.
pub open spec fn package_rules_of() -> Seq<(Seq<char>, Seq<char>)> {
    seq![
        ("\"react\""@, "React"@),
        ("\"vue\""@, "Vue"@),
        ("\"next\""@, "Next.js"@),
        ("\"nuxt\""@, "Nuxt"@),
        ("\"typescript\""@, "TypeScript"@),
        ("\"vite\""@, "Vite"@),
        ("\"tailwindcss\""@, "Tailwind CSS"@),
        ("\"express\""@, "Express"@),
        ("\"nestjs\""@, "NestJS"@),
        ("\"@nestjs"@, "NestJS"@),
    ]
}

fn package_rules() -> (r: Vec<(&'static str, &'static str)>)
    ensures
        rule_views(r@) == package_rules_of(),
{
    let mut r: Vec<(&'static str, &'static str)> = Vec::new();
    r.push(("\"react\"", "React"));
    r.push(("\"vue\"", "Vue"));
    r.push(("\"next\"", "Next.js"));
    r.push(("\"nuxt\"", "Nuxt"));
    r.push(("\"typescript\"", "TypeScript"));
    r.push(("\"vite\"", "Vite"));
    r.push(("\"tailwindcss\"", "Tailwind CSS"));
    r.push(("\"express\"", "Express"));
    r.push(("\"nestjs\"", "NestJS"));
    r.push(("\"@nestjs", "NestJS"));
    assert(rule_views(r@) =~= package_rules_of());
    r
}

/// The rules for `Cargo.toml`.
pub open spec fn cargo_rules_of() -> Seq<(Seq<char>, Seq<char>)> {
    seq![("tauri"@, "Tauri"@), ("actix"@, "Actix"@), ("tokio"@, "Tokio"@)]
}

fn cargo_rules() -> (r: Vec<(&'static str, &'static str)>)
    ensures
        rule_views(r@) == cargo_rules_of(),
{
    let mut r: Vec<(&'static str, &'static str)> = Vec::new();
    r.push(("tauri", "Tauri"));
    r.push(("actix", "Actix"));
    r.push(("tokio", "Tokio"));
    assert(rule_views(r@) =~= cargo_rules_of());
    r
}

/// What the caller found at the root of a project: the text of each file
/// that lists dependencies, where it could be read, and whether the files
/// that mark a technology exist.
#[derive(Debug, Clone, PartialEq, Eq)]
pub struct ProjectFacts {
    /// The text of `requirements.txt`.
    pub requirements_txt: Option<String>,
    /// The text of `pyproject.toml`.
    pub pyproject_toml: Option<String>,
    /// The text of `setup.py`.
    pub setup_py: Option<String>,
    /// The text of `Pipfile`.
    pub pipfile: Option<String>,
    /// The text of `package.json`.
    pub package_json: Option<String>,
    /// The text of `Cargo.toml`.
    pub cargo_toml: Option<String>,
    /// Whether `Cargo.toml` exists.
    pub has_cargo_toml: bool,
    /// Whether `go.mod` exists.
    pub has_go_mod: bool,
    /// Whether `pom.xml` exists.
    pub has_pom_xml: bool,
    /// Whether `build.gradle` exists.
    pub has_build_gradle: bool,
    /// Whether `Dockerfile` exists.
    pub has_dockerfile: bool,
    /// Whether `docker-compose.yml` exists.
    pub has_docker_compose: bool,
}

/// Whether one of `paths` ends with `ending`.
pub open spec fn any_ends_with(paths: Seq<Seq<char>>, ending: Seq<char>) -> bool {
    exists|i: int| 0 <= i < paths.len() && ending.is_suffix_of(#[trigger] paths[i])
}

/// Whether one of `paths` holds `part`.
pub open spec fn any_contains(paths: Seq<Seq<char>>, part: Seq<char>) -> bool {
    exists|i: int| 0 <= i < paths.len() && contains_of(#[trigger] paths[i], part)
}

/// The list `stack` after the rules were applied to the lower-case form of
/// the file `text`, where the file could be read.
pub open spec fn apply_file_of(
    stack: Seq<Seq<char>>,
    text: Option<String>,
    rules: Seq<(Seq<char>, Seq<char>)>,
) -> Seq<Seq<char>> {
    match text {
        Some(t) => apply_rules_of(stack, lowercase_of(t@), rules),
        None => stack,
    }
}

/// The list `stack` with `tag` where `wanted` holds.
pub open spec fn push_if_of(stack: Seq<Seq<char>>, wanted: bool, tag: Seq<char>) -> Seq<Seq<char>> {
    if wanted {
        push_unique_of(stack, tag)
    } else {
        stack
    }
}

/// The technologies of a project, in the order in which the rules find
/// them: Python and what its dependency files name; what `package.json`
/// names, where the project has script files; Rust and what `Cargo.toml`
/// names; Go; Java with Maven or Gradle; Docker.
pub open spec fn tech_stack_of(paths: Seq<Seq<char>>, facts: ProjectFacts) -> Seq<Seq<char>> {
    let s0 = push_if_of(Seq::empty(), any_ends_with(paths, ".py"@), "Python"@);
    let s1 = apply_file_of(s0, facts.requirements_txt, python_rules_of());
    let s2 = apply_file_of(s1, facts.pyproject_toml, python_rules_of());
    let s3 = apply_file_of(s2, facts.setup_py, python_rules_of());
    let s4 = apply_file_of(s3, facts.pipfile, python_rules_of());
    let has_script = any_ends_with(paths, ".ts"@) || any_ends_with(paths, ".js"@) || any_ends_with(
        paths,
        ".tsx"@,
    ) || any_ends_with(paths, ".jsx"@);
    let s5 = if has_script {
        apply_file_of(s4, facts.package_json, package_rules_of())
    } else {
        s4
    };
    let rust = paths.contains("Cargo.toml"@) || facts.has_cargo_toml;
    let s6 = push_if_of(s5, rust, "Rust"@);
    let s7 = if rust {
        apply_file_of(s6, facts.cargo_toml, cargo_rules_of())
    } else {
        s6
    };
    let s8 = push_if_of(s7, paths.contains("go.mod"@) || facts.has_go_mod, "Go"@);
    let maven = paths.contains("pom.xml"@) || facts.has_pom_xml;
    let s9 = push_if_of(push_if_of(s8, maven, "Java"@), maven, "Maven"@);
    let gradle = paths.contains("build.gradle"@) || facts.has_build_gradle;
    let s10 = push_if_of(push_if_of(s9, gradle, "Java"@), gradle, "Gradle"@);
    let docker = any_contains(paths, "Dockerfile"@) || any_contains(paths, "dockerfile"@)
        || facts.has_dockerfile || facts.has_docker_compose;
    push_if_of(s10, docker, "Docker"@)
}

fn has_ending(paths: &Vec<Vec<char>>, ending: &str) -> (r: bool)
    ensures
        r == any_ends_with(views(paths@), ending@),
{
    let mut i: usize = 0;
    while i < paths.len()
        invariant
            i <= paths.len(),
            forall|k: int| 0 <= k < i ==> !ending@.is_suffix_of(#[trigger] views(paths@)[k]),
        decreases paths.len() - i,
    {
        if ends_with_str(&paths[i], ending) {
            assert(views(paths@)[i as int] == paths@[i as int]@);
            return true;
        }
        assert(views(paths@)[i as int] == paths@[i as int]@);
        i += 1;
    }
    false
}

fn has_part(paths: &Vec<Vec<char>>, part: &str) -> (r: bool)
    ensures
        r == any_contains(views(paths@), part@),
{
    let mut i: usize = 0;
    while i < paths.len()
        invariant
            i <= paths.len(),
            forall|k: int| 0 <= k < i ==> !contains_of(#[trigger] views(paths@)[k], part@),
        decreases paths.len() - i,
    {
        if contains_str(&paths[i], part) {
            assert(views(paths@)[i as int] == paths@[i as int]@);
            return true;
        }
        assert(views(paths@)[i as int] == paths@[i as int]@);
        i += 1;
    }
    false
}

fn apply_file(
    stack: &mut Vec<Vec<char>>,
    text: &Option<String>,
    rules: &Vec<(&'static str, &'static str)>,
)
    ensures
        views(final(stack)@) == apply_file_of(views(old(stack)@), *text, rule_views(rules@)),
{
    match text {
        Some(t) => {
            let lower = to_chars(lowercase(t.as_str()).as_str());
            apply_rules(stack, &lower, rules);
        },
        None => {},
    }
}

fn push_if(stack: &mut Vec<Vec<char>>, wanted: bool, tag: &str)
    ensures
        views(final(stack)@) == push_if_of(views(old(stack)@), wanted, tag@),
{
    if wanted {
        push_unique(stack, tag);
    }
}

fn paths_of(entries: &[FileEntry]) -> (r: Vec<Vec<char>>)
    ensures
        views(r@) == entry_paths(entries@),
{
    let mut r: Vec<Vec<char>> = Vec::new();
    let mut i: usize = 0;
    while i < entries.len()
        invariant
            i <= entries.len(),
            r.len() == i,
            forall|k: int| 0 <= k < i ==> r@[k]@ == entries@[k].relative_path@,
        decreases entries.len() - i,
    {
        r.push(to_chars(entries[i].relative_path.as_str()));
        i += 1;
    }
    assert(views(r@) =~= entry_paths(entries@));
    r
}

/// The technologies that a project appears to use, judged by the files of
/// its index and by what the caller found at its root.
pub fn detect_tech_stack(entries: &[FileEntry], facts: &ProjectFacts) -> (r: Vec<String>)
    ensures
        string_views(r@) == tech_stack_of(entry_paths(entries@), *facts),
{
    let paths = paths_of(entries);
    let py = python_rules();
    let mut stack: Vec<Vec<char>> = Vec::new();
    assert(views(stack@) =~= Seq::<Seq<char>>::empty());
    push_if(&mut stack, has_ending(&paths, ".py"), "Python");
    apply_file(&mut stack, &facts.requirements_txt, &py);
    apply_file(&mut stack, &facts.pyproject_toml, &py);
    apply_file(&mut stack, &facts.setup_py, &py);
    apply_file(&mut stack, &facts.pipfile, &py);
    let has_script = has_ending(&paths, ".ts") || has_ending(&paths, ".js") || has_ending(
        &paths,
        ".tsx",
    ) || has_ending(&paths, ".jsx");
    if has_script {
        apply_file(&mut stack, &facts.package_json, &package_rules());
    }
    let rust = list_contains(&paths, &to_chars("Cargo.toml")) || facts.has_cargo_toml;
    push_if(&mut stack, rust, "Rust");
    if rust {
        apply_file(&mut stack, &facts.cargo_toml, &cargo_rules());
    }
    push_if(&mut stack, list_contains(&paths, &to_chars("go.mod")) || facts.has_go_mod, "Go");
    let maven = list_contains(&paths, &to_chars("pom.xml")) || facts.has_pom_xml;
    push_if(&mut stack, maven, "Java");
    push_if(&mut stack, maven, "Maven");
    let gradle = list_contains(&paths, &to_chars("build.gradle")) || facts.has_build_gradle;
    push_if(&mut stack, gradle, "Java");
    push_if(&mut stack, gradle, "Gradle");
    let docker = has_part(&paths, "Dockerfile") || has_part(&paths, "dockerfile")
        || facts.has_dockerfile || facts.has_docker_compose;
    push_if(&mut stack, docker, "Docker");
    to_strings(&stack)
}

// ---------------------------------------------------------------------------
// The overview
// ---------------------------------------------------------------------------
/// The folders of the files `paths` that lie in a folder, with repetitions.
pub open spec fn folders_of(paths: Seq<Seq<char>>) -> Seq<Seq<char>>
    decreases paths.len(),
{
    if paths.len() == 0 {
        Seq::empty()
    } else {
        let rest = folders_of(paths.drop_last());
        match rfind_char_of(paths.last(), '/') {
            Some(pos) => rest.push(paths.last().subrange(0, pos)),
            None => rest,
        }
    }
}

/// The number of folders that hold a file directly, capped at `u32::MAX`.
pub fn count_folders(entries: &[FileEntry]) -> (r: u32)
    ensures
        r == if dedup_of(folders_of(entry_paths(entries@))).len() > u32::MAX {
            u32::MAX as int
        } else {
            dedup_of(folders_of(entry_paths(entries@))).len() as int
        },
{
    let paths = paths_of(entries);
    let mut folders: Vec<Vec<char>> = Vec::new();
    let mut i: usize = 0;
    while i < paths.len()
        invariant
            i <= paths.len(),
            views(folders@) == folders_of(views(paths@).take(i as int)),
        decreases paths.len() - i,
    {
        let ghost before = views(folders@);
        assert(views(paths@).take(i + 1).drop_last() =~= views(paths@).take(i as int));
        match rfind_char(&paths[i], '/') {
            Some(pos) => {
                folders.push(subvec(&paths[i], 0, pos));
                assert(views(folders@) =~= before.push(paths@[i as int]@.subrange(0, pos as int)));
            },
            None => {},
        }
        i += 1;
    }
    assert(views(paths@).take(paths.len() as int) =~= views(paths@));
    let distinct = dedup(&folders);
    cap(distinct.len())
}

/// The number `n`, capped at `u32::MAX`.
pub fn cap(n: usize) -> (r: u32)
    ensures
        r == if n > u32::MAX {
            u32::MAX as int
        } else {
            n as int
        },
{
    if n > u32::MAX as usize {
        u32::MAX
    } else {
        n as u32
    }
}

/// A file of a project with its text, where the text could be read.
#[derive(Debug, Clone, PartialEq, Eq)]
pub struct FileText {
    /// The file's path below the project root.
    pub relative_path: String,
    /// The file's text, or `None` for a file that is no text.
    pub content: Option<String>,
}

/// The number of lines of a file; a file that is no text has none.
pub open spec fn line_count_of(file: FileText) -> nat {
    match file.content {
        Some(text) => lines_of(text@).len(),
        None => 0,
    }
}

/// The sum `a + b`, capped at `u32::MAX`.
pub open spec fn capped_sum(a: nat, b: nat) -> nat {
    if a + b > u32::MAX {
        u32::MAX as nat
    } else {
        a + b
    }
}

/// What is counted of one language: its name, the number of its files and
/// the number of their lines.
pub open spec fn stat_views(stats: Seq<LanguageStat>) -> Seq<(Seq<char>, nat, nat)> {
    Seq::new(
        stats.len(),
        |i: int| (stats[i].language@, stats[i].file_count as nat, stats[i].line_count as nat),
    )
}

/// The index of the language `language` in `stats`.
pub open spec fn language_index_of(stats: Seq<(Seq<char>, nat, nat)>, language: Seq<char>)
    -> Option<int>
    decreases stats.len(),
{
    if stats.len() == 0 {
        None
    } else {
        match language_index_of(stats.drop_last(), language) {
            Some(i) => Some(i),
            None => if stats.last().0 == language {
                Some(stats.len() - 1)
            } else {
                None
            },
        }
    }
}

/// The files `files` counted by language: each language once, in the order
/// in which the languages first occur, with the number of its files and the
/// number of their lines, both capped at `u32::MAX`.
pub open spec fn language_counts_of(files: Seq<FileText>) -> Seq<(Seq<char>, nat, nat)>
    decreases files.len(),
{
    if files.len() == 0 {
        Seq::empty()
    } else {
        let rest = language_counts_of(files.drop_last());
        let language = detect_language_of(files.last().relative_path@);
        let lines = line_count_of(files.last());
        match language_index_of(rest, language) {
            Some(k) => rest.update(
                k,
                (language, capped_sum(rest[k].1, 1), capped_sum(rest[k].2, lines)),
            ),
            None => rest.push((language, 1, capped_sum(0, lines))),
        }
    }
}

fn language_index(stats: &Vec<LanguageStat>, language: &String) -> (r: Option<usize>)
    ensures
        match r {
            Some(i) => language_index_of(stat_views(stats@), language@) == Some(i as int) && i
                < stats.len(),
            None => language_index_of(stat_views(stats@), language@) is None,
        },
{
    let mut i: usize = 0;
    while i < stats.len()
        invariant
            i <= stats.len(),
            language_index_of(stat_views(stats@).take(i as int), language@) is None,
        decreases stats.len() - i,
    {
        assert(stat_views(stats@).take(i + 1).drop_last() =~= stat_views(stats@).take(i as int));
        if stats[i].language == *language {
            proof {
                lemma_language_index_prefix(stat_views(stats@), language@, i + 1);
            }
            return Some(i);
        }
        i += 1;
    }
    assert(stat_views(stats@).take(stats.len() as int) =~= stat_views(stats@));
    None
}

proof fn lemma_language_index_prefix(
    stats: Seq<(Seq<char>, nat, nat)>,
    language: Seq<char>,
    k: int,
)
    requires
        0 <= k <= stats.len(),
        language_index_of(stats.take(k), language) is Some,
    ensures
        language_index_of(stats, language) == language_index_of(stats.take(k), language),
    decreases stats.len(),
{
    if k < stats.len() {
        assert(stats.drop_last().take(k) =~= stats.take(k));
        lemma_language_index_prefix(stats.drop_last(), language, k);
    } else {
        assert(stats.take(k) =~= stats);
    }
}

fn add_capped(a: u32, b: usize) -> (r: u32)
    ensures
        r == capped_sum(a as nat, b as nat),
{
    if b > (u32::MAX - a) as usize {
        u32::MAX
    } else {
        a + b as u32
    }
}

/// Counts the files of a project by language.
pub fn language_counts(files: &[FileText]) -> (stats: Vec<LanguageStat>)
    ensures
        stat_views(stats@) == language_counts_of(files@),
{
    let mut stats: Vec<LanguageStat> = Vec::new();
    let mut i: usize = 0;
    assert(stat_views(stats@) =~= language_counts_of(files@.take(0)));
    while i < files.len()
        invariant
            i <= files.len(),
            stat_views(stats@) == language_counts_of(files@.take(i as int)),
        decreases files.len() - i,
    {
        let ghost before = stat_views(stats@);
        assert(files@.take(i + 1).drop_last() =~= files@.take(i as int));
        let language = detect_language(files[i].relative_path.as_str());
        let count: usize = match &files[i].content {
            Some(text) => lines(&to_chars(text.as_str())).len(),
            None => 0,
        };
        match language_index(&stats, &language) {
            Some(k) => {
                let old_stat = &stats[k];
                let updated = LanguageStat {
                    language,
                    file_count: add_capped(old_stat.file_count, 1),
                    line_count: add_capped(old_stat.line_count, count),
                };
                stats.set(k, updated);
                assert(stat_views(stats@) =~= before.update(
                    k as int,
                    (
                        updated.language@,
                        updated.file_count as nat,
                        updated.line_count as nat,
                    ),
                ));
            },
            None => {
                let added = LanguageStat {
                    language,
                    file_count: 1,
                    line_count: add_capped(0, count),
                };
                stats.push(added);
                assert(stat_views(stats@) =~= before.push(
                    (added.language@, 1nat, added.line_count as nat),
                ));
            },
        }
        i += 1;
    }
    assert(files@.take(files.len() as int) =~= files@);
    stats
}

/// The sum of the lines of `stats`, capped at `u32::MAX`.
pub open spec fn total_lines_of(stats: Seq<LanguageStat>) -> nat
    decreases stats.len(),
{
    if stats.len() == 0 {
        0
    } else {
        capped_sum(total_lines_of(stats.drop_last()), stats.last().line_count as nat)
    }
}

/// The summary of a project: the number of its files, lines and folders,
/// its technologies, its files by language, the language with most lines
/// first, and its entry points. The numbers are capped at `u32::MAX`.
pub fn analyze_project_overview(entries: &[FileEntry], files: &[FileText], facts: &ProjectFacts)
    -> (r: ProjectOverview)
    ensures
        r.total_files == if entries@.len() > u32::MAX {
            u32::MAX as int
        } else {
            entries@.len() as int
        },
        exists|counted: Seq<LanguageStat>|
            #![trigger stat_views(counted)]
            stat_views(counted) == language_counts_of(files@) && r.languages@ == sorted_of(counted)
                && r.total_lines == total_lines_of(counted),
        is_sorted(r.languages@),
        r.total_dirs == if dedup_of(folders_of(entry_paths(entries@))).len() > u32::MAX {
            u32::MAX as int
        } else {
            dedup_of(folders_of(entry_paths(entries@))).len() as int
        },
        string_views(r.tech_stack@) == tech_stack_of(entry_paths(entries@), *facts),
        string_views(r.entry_files@) == entry_files_of(entry_paths(entries@)),
{
    let counted = language_counts(files);
    let mut total_lines: u32 = 0;
    let mut i: usize = 0;
    while i < counted.len()
        invariant
            i <= counted.len(),
            total_lines == total_lines_of(counted@.take(i as int)),
        decreases counted.len() - i,
    {
        assert(counted@.take(i + 1).drop_last() =~= counted@.take(i as int));
        total_lines = add_capped(total_lines, counted[i].line_count as usize);
        i += 1;
    }
    assert(counted@.take(counted.len() as int) =~= counted@);
    let ghost unsorted = counted@;
    let languages = stable_sort(counted);
    assert(stat_views(unsorted) == language_counts_of(files@));
    ProjectOverview {
        total_files: cap(entries.len()),
        total_lines,
        total_dirs: count_folders(entries),
        tech_stack: detect_tech_stack(entries, facts),
        languages,
        entry_files: detect_entry_files(entries),
    }
}

} // verus!
