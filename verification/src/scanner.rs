//! Checking a project folder and listing its modules.
use vstd::prelude::*;
use crate::error::{AppError, AppResult};
use crate::models::ModuleInfo;
use crate::packer::{is_ending_pattern, is_prefix_pattern};
use crate::pipeline::{default_excludes, default_excludes_of};
use crate::sorting::{is_sorted, sorted_of, stable_sort};
use crate::text::{
    chars_eq, concat, ends_with, from_chars, list_contains, replace_char, replace_char_of,
    starts_with, str_eq, string_views, subvec, to_char_lists, to_chars, to_strings, views,
};

verus! {

/// The files and folders at the heart of a project, in the order in which
/// they are reported. A name that ends with `/` is a folder.
pub open spec fn core_files_of() -> Seq<Seq<char>> {
    seq!["main.py"@, "requirements.txt"@, ".env.example"@, "config/"@, "core/"@, "utils/"@]
}

/// The files and folders at the heart of a project.
pub fn core_files() -> (r: Vec<String>)
    ensures
        string_views(r@) == core_files_of(),
{
    let mut r: Vec<String> = Vec::new();
    r.push("main.py".to_string());
    r.push("requirements.txt".to_string());
    r.push(".env.example".to_string());
    r.push("config/".to_string());
    r.push("core/".to_string());
    r.push("utils/".to_string());
    assert(string_views(r@) =~= core_files_of());
    r
}

/// The entries of the modules folder that are no modules.
pub open spec fn ignored_entries_of() -> Seq<Seq<char>> {
    seq!["__pycache__"@, ".git"@, ".DS_Store"@]
}

/// Whether `name` is an entry of the modules folder that is no module.
pub fn is_ignored_entry(name: &str) -> (r: bool)
    ensures
        r == ignored_entries_of().contains(name@),
{
    let r = str_eq(name, "__pycache__") || str_eq(name, ".git") || str_eq(name, ".DS_Store");
    proof {
        let l = ignored_entries_of();
        if r {
            if name@ == "__pycache__"@ {
                assert(l[0] == name@);
            } else if name@ == ".git"@ {
                assert(l[1] == name@);
            } else {
                assert(l[2] == name@);
            }
        }
    }
    r
}

/// The error of a project folder without its entry file or without its
/// modules folder; `None` where both are there.
pub open spec fn project_error_of(has_main_py: bool, has_modules: bool) -> Option<Seq<char>> {
    if !has_main_py && !has_modules {
        Some("缺少 main.py 文件和 modules/ 目录"@)
    } else if !has_main_py {
        Some("缺少 main.py 文件"@)
    } else if !has_modules {
        Some("缺少 modules/ 目录"@)
    } else {
        None
    }
}

/// The names of `names` that are among `present`, in order.
pub open spec fn among_of(names: Seq<Seq<char>>, present: Seq<Seq<char>>) -> Seq<Seq<char>>
    decreases names.len(),
{
    if names.len() == 0 {
        Seq::empty()
    } else {
        let rest = among_of(names.drop_last(), present);
        if present.contains(names.last()) {
            rest.push(names.last())
        } else {
            rest
        }
    }
}

/// Checks that a folder is a project: it holds the file `main.py` and the
/// folder `modules`. Where one is missing the error names it, and where both
/// are missing it names both. For a project the core files that exist are
/// returned, in the order of `core_files`; `present` lists the core files
/// that the caller found.
pub fn validate_project(has_main_py: bool, has_modules: bool, present: &[String]) -> (r: AppResult<
    Vec<String>,
>)
    ensures
        match r {
            Ok(found) => project_error_of(has_main_py, has_modules) is None && string_views(found@)
                == among_of(core_files_of(), string_views(present@)),
            Err(AppError::ValidationError(m)) => project_error_of(has_main_py, has_modules)
                == Some(m@),
            Err(_) => false,
        },
{
    if !has_main_py && !has_modules {
        return Err(AppError::ValidationError("缺少 main.py 文件和 modules/ 目录".to_string()));
    }
    if !has_main_py {
        return Err(AppError::ValidationError("缺少 main.py 文件".to_string()));
    }
    if !has_modules {
        return Err(AppError::ValidationError("缺少 modules/ 目录".to_string()));
    }
    let core = to_char_lists(core_files().as_slice());
    let there = to_char_lists(present);
    let mut found: Vec<Vec<char>> = Vec::new();
    let mut i: usize = 0;
    while i < core.len()
        invariant
            i <= core.len(),
            views(found@) == among_of(views(core@).take(i as int), views(there@)),
        decreases core.len() - i,
    {
        let ghost before = views(found@);
        assert(views(core@).take(i + 1).drop_last() =~= views(core@).take(i as int));
        if list_contains(&there, &core[i]) {
            found.push(crate::text::copy_chars(&core[i]));
            assert(views(found@) =~= before.push(core@[i as int]@));
        }
        i += 1;
    }
    assert(views(core@).take(core.len() as int) =~= views(core@));
    Ok(to_strings(&found))
}

/// An entry of a folder, as the file system lists it.
#[derive(Debug, Clone, PartialEq, Eq)]
pub struct DirEntry {
    /// The entry's name.
    pub name: String,
    /// The entry's full path.
    pub path: String,
    /// Whether the entry is a folder.
    pub is_dir: bool,
}

/// The modules among the entries of the modules folder: the folders that are
/// not ignored, in the order of the entries.
pub open spec fn modules_among(entries: Seq<DirEntry>) -> Seq<ModuleInfo>
    decreases entries.len(),
{
    if entries.len() == 0 {
        Seq::empty()
    } else {
        let rest = modules_among(entries.drop_last());
        let e = entries.last();
        if e.is_dir && !ignored_entries_of().contains(e.name@) {
            rest.push(ModuleInfo { name: e.name, path: e.path })
        } else {
            rest
        }
    }
}

/// The message for a modules folder that cannot be read.
pub open spec fn unreadable_modules_message() -> Seq<char> {
    "无法读取 modules/ 目录"@
}

/// Lists the modules of a project from the entries of its modules folder:
/// the folders that are not ignored, sorted by name. `None` stands for a
/// folder that could not be read, which is a scan error.
pub fn scan_modules_dir(listing: Option<Vec<DirEntry>>) -> (r: AppResult<Vec<ModuleInfo>>)
    ensures
        match r {
            Ok(modules) => listing is Some && modules@ == sorted_of(modules_among(listing->0@))
                && is_sorted(modules@),
            Err(AppError::ScanError(m)) => listing is None && m@ == unreadable_modules_message(),
            Err(_) => false,
        },
{
    let entries = match listing {
        Some(e) => e,
        None => {
            return Err(AppError::ScanError("无法读取 modules/ 目录".to_string()));
        },
    };
    let ghost all = entries@;
    let mut entries = entries;
    let mut picked: Vec<ModuleInfo> = Vec::new();
    let mut rest: Vec<DirEntry> = Vec::new();
    while entries.len() > 0
        invariant
            entries@ + rest@.reverse() == all,
        decreases entries.len(),
    {
        let ghost before = entries@;
        let ghost t = rest@;
        let x = entries.pop().unwrap();
        rest.push(x);
        assert(entries@ + rest@.reverse() =~= before + t.reverse());
    }
    assert(rest@.reverse() =~= all);
    let ghost mut n: int = 0;
    while rest.len() > 0
        invariant
            0 <= n <= all.len(),
            all.take(n) + rest@.reverse() == all,
            picked@ == modules_among(all.take(n)),
        decreases rest.len(),
    {
        let ghost t = rest@;
        let e = rest.pop().unwrap();
        proof {
            assert(all.take(n).len() + t.reverse().len() == all.len());
            assert(all[n] == e) by {
                assert((all.take(n) + t.reverse())[n] == t.reverse()[0]);
            }
            assert(all.take(n + 1).drop_last() =~= all.take(n));
            assert(t.reverse() =~= seq![e] + rest@.reverse());
            assert(all.take(n + 1) + rest@.reverse() =~= all);
        }
        if e.is_dir && !is_ignored_entry(e.name.as_str()) {
            picked.push(ModuleInfo { name: e.name, path: e.path });
        }
        proof {
            n = n + 1;
        }
    }
    assert(all.take(n) =~= all);
    Ok(stable_sort(picked))
}

// ---------------------------------------------------------------------------
// The skeleton of a project
// ---------------------------------------------------------------------------
/// What the listing of the skeleton leaves out: the default list, the
/// modules folder, what the technology adds, and the working folders and
/// archives of earlier builds.
pub open spec fn listing_excludes_of(modules_dir: Seq<char>, extra: Seq<Seq<char>>) -> Seq<
    Seq<char>,
> {
    default_excludes_of() + seq![modules_dir] + extra + seq!["dist_"@, "*.zip"@]
}

/// What the listing of the skeleton leaves out.
pub fn listing_excludes(modules_dir: &str, extra_excludes: &[String]) -> (r: Vec<String>)
    ensures
        string_views(r@) == listing_excludes_of(modules_dir@, string_views(extra_excludes@)),
{
    let mut r = default_excludes();
    r.push(modules_dir.to_string());
    let ghost base = string_views(r@);
    assert(base =~= default_excludes_of() + seq![modules_dir@]);
    let mut i: usize = 0;
    assert(string_views(r@) =~= base + string_views(extra_excludes@).take(0));
    while i < extra_excludes.len()
        invariant
            i <= extra_excludes.len(),
            string_views(r@) == base + string_views(extra_excludes@).take(i as int),
        decreases extra_excludes.len() - i,
    {
        let ghost before = string_views(r@);
        let item = extra_excludes[i].clone();
        assert(item@ == extra_excludes@[i as int]@);
        r.push(item);
        assert(string_views(r@) =~= before.push(extra_excludes@[i as int]@));
        i += 1;
        assert(string_views(r@) =~= base + string_views(extra_excludes@).take(i as int));
    }
    assert(string_views(extra_excludes@).take(extra_excludes.len() as int) =~= string_views(
        extra_excludes@,
    ));
    let ghost mid = string_views(r@);
    r.push("dist_".to_string());
    r.push("*.zip".to_string());
    assert(string_views(r@) =~= mid + seq!["dist_"@, "*.zip"@]);
    r
}

/// Whether `pattern` keeps the entry `name` out of the listing of the
/// skeleton: a pattern that ends with `_` by the beginning of the name, a
/// pattern that begins with `*.` by the ending of the name, any other
/// pattern by the whole name.
pub open spec fn listing_pattern_excludes(name: Seq<char>, pattern: Seq<char>) -> bool {
    (is_prefix_pattern(pattern) && pattern.is_prefix_of(name)) || if is_ending_pattern(pattern) {
        pattern.subrange(1, pattern.len() as int).is_suffix_of(name)
    } else {
        name == pattern
    }
}

/// Whether one of `patterns` keeps the entry `name` out of the listing of
/// the skeleton.
pub open spec fn is_listing_excluded_of(name: Seq<char>, patterns: Seq<Seq<char>>) -> bool {
    exists|i: int| 0 <= i < patterns.len() && listing_pattern_excludes(name, #[trigger] patterns[i])
}

/// Whether one of `patterns` keeps the entry `name`, a file or a folder, out
/// of the listing of the skeleton.
pub fn is_listing_excluded(name: &str, patterns: &[String]) -> (r: bool)
    ensures
        r == is_listing_excluded_of(name@, string_views(patterns@)),
{
    let n = to_chars(name);
    let ps = to_char_lists(patterns);
    let mut i: usize = 0;
    while i < ps.len()
        invariant
            i <= ps.len(),
            n@ == name@,
            views(ps@) == string_views(patterns@),
            forall|k: int| 0 <= k < i ==> !listing_pattern_excludes(n@, #[trigger] views(ps@)[k]),
        decreases ps.len() - i,
    {
        let p = &ps[i];
        let by_prefix = p.len() > 0 && p[p.len() - 1] == '_' && starts_with(&n, p);
        let hit = by_prefix || if p.len() >= 2 && p[0] == '*' && p[1] == '.' {
            ends_with(&n, &subvec(p, 1, p.len()))
        } else {
            chars_eq(&n, p)
        };
        assert(views(ps@)[i as int] == p@);
        if hit {
            return true;
        }
        i += 1;
    }
    false
}

/// The line of the listing for the path `relative`: the path with `/`
/// between its segments, and with a `/` at its end for a folder.
pub open spec fn skeleton_entry_of(relative: Seq<char>, is_dir: bool) -> Seq<char> {
    if is_dir {
        replace_char_of(relative, '\\', '/') + "/"@
    } else {
        replace_char_of(relative, '\\', '/')
    }
}

/// The line of the listing for the path `relative`.
pub fn skeleton_entry(relative: &str, is_dir: bool) -> (r: String)
    ensures
        r@ == skeleton_entry_of(relative@, is_dir),
{
    let name = replace_char(&to_chars(relative), '\\', '/');
    if is_dir {
        from_chars(&concat(&name, &to_chars("/")))
    } else {
        from_chars(&name)
    }
}

/// The listing of the skeleton: its lines in the order of strings.
pub fn sort_skeleton(entries: Vec<String>) -> (r: Vec<String>)
    ensures
        r@ == sorted_of(entries@),
        is_sorted(r@),
        r@.to_multiset() == entries@.to_multiset(),
{
    stable_sort(entries)
}

/// An entry that a walk of a project found.
#[derive(Debug, Clone, PartialEq, Eq)]
pub struct WalkedEntry {
    /// The entry's path below the project root, in the notation of the host.
    pub relative_path: String,
    /// Whether the entry is a folder.
    pub is_dir: bool,
}

/// The lines of the listing for the entries, in their order.
pub open spec fn skeleton_lines_of(entries: Seq<WalkedEntry>) -> Seq<Seq<char>> {
    Seq::new(
        entries.len(),
        |i: int| skeleton_entry_of(entries[i].relative_path@, entries[i].is_dir),
    )
}

/// The message for a project path that is no folder.
pub open spec fn missing_project_message() -> Seq<char> {
    "项目路径不存在"@
}

/// Lists the skeleton of a project from the entries that a walk found below
/// its root, the walk having passed by what `is_listing_excluded` leaves
/// out: one line for each entry, in the order of strings. A project path
/// that is no folder is a scan error.
pub fn scan_skeleton_files(exists: bool, entries: &[WalkedEntry]) -> (r: AppResult<Vec<String>>)
    ensures
        match r {
            Ok(listing) => exists && is_sorted(listing@) && exists|lines: Seq<String>|
                #![trigger string_views(lines)]
                string_views(lines) == skeleton_lines_of(entries@) && listing@ == sorted_of(lines),
            Err(AppError::ScanError(m)) => !exists && m@ == missing_project_message(),
            Err(_) => false,
        },
{
    if !exists {
        return Err(AppError::ScanError("项目路径不存在".to_string()));
    }
    let mut lines: Vec<String> = Vec::new();
    let mut i: usize = 0;
    while i < entries.len()
        invariant
            i <= entries.len(),
            lines@.len() == i,
            forall|k: int|
                0 <= k < i ==> (#[trigger] lines@[k])@ == skeleton_entry_of(
                    entries@[k].relative_path@,
                    entries@[k].is_dir,
                ),
        decreases entries.len() - i,
    {
        lines.push(skeleton_entry(entries[i].relative_path.as_str(), entries[i].is_dir));
        i += 1;
    }
    assert(string_views(lines@) =~= skeleton_lines_of(entries@));
    Ok(sort_skeleton(lines))
}

} // verus!
