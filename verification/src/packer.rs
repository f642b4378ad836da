//! Checking the parameters of a build and deciding what the skeleton copy
//! leaves out.
use vstd::prelude::*;
use crate::error::{AppError, AppResult};
use crate::scanner::WalkedEntry;
use crate::sorting::{
    is_sorted, lemma_lex_total, lemma_lex_transitive, lex_le, sorted_of, stable_sort, text_le,
    Sortable,
};
use crate::text::{
    chars_eq, concat, ends_with, from_chars, replace_char, replace_char_of, starts_with,
    string_views, subvec, to_char_lists, to_chars, trim, trim_of, views,
};

verus! {

/// The message for an empty target label together with an empty selection.
pub open spec fn both_missing_message() -> Seq<char> {
    "客户名称不能为空且至少需要选择一个模块"@
}

/// The message for an empty target label.
pub open spec fn name_missing_message() -> Seq<char> {
    "客户名称不能为空"@
}

/// The message for an empty selection.
pub open spec fn modules_missing_message() -> Seq<char> {
    "至少需要选择一个模块"@
}

/// What the check of the build parameters answers: `None` where they are
/// acceptable, else the message of the validation error.
pub open spec fn build_params_error_of(client_name: Seq<char>, selected: int) -> Option<Seq<char>> {
    let name_empty = trim_of(client_name).len() == 0;
    let no_modules = selected == 0;
    if name_empty && no_modules {
        Some(both_missing_message())
    } else if name_empty {
        Some(name_missing_message())
    } else if no_modules {
        Some(modules_missing_message())
    } else {
        None
    }
}

/// Checks the parameters of a build: the target label must hold more than
/// white space, and at least one module must be selected. Where both fail,
/// one error reports both.
pub fn validate_build_params(client_name: &str, selected_modules: &[String]) -> (r: AppResult<()>)
    ensures
        match r {
            Ok(_) => build_params_error_of(client_name@, selected_modules@.len() as int) is None,
            Err(AppError::ValidationError(m)) => build_params_error_of(
                client_name@,
                selected_modules@.len() as int,
            ) == Some(m@),
            Err(_) => false,
        },
{
    let name_empty = trim(&to_chars(client_name)).len() == 0;
    let no_modules = selected_modules.len() == 0;
    if name_empty && no_modules {
        Err(AppError::ValidationError("客户名称不能为空且至少需要选择一个模块".to_string()))
    } else if name_empty {
        Err(AppError::ValidationError("客户名称不能为空".to_string()))
    } else if no_modules {
        Err(AppError::ValidationError("至少需要选择一个模块".to_string()))
    } else {
        Ok(())
    }
}

// ---------------------------------------------------------------------------
// What the skeleton copy leaves out
// ---------------------------------------------------------------------------
/// Whether `pattern` is a prefix pattern: it ends with `_`.
pub open spec fn is_prefix_pattern(pattern: Seq<char>) -> bool {
    pattern.len() > 0 && pattern.last() == '_'
}

/// Whether `pattern` is an ending pattern: it begins with `*.`.
pub open spec fn is_ending_pattern(pattern: Seq<char>) -> bool {
    pattern.len() >= 2 && pattern[0] == '*' && pattern[1] == '.'
}

/// Whether `pattern` keeps the folder `name` out of a copy: a prefix pattern
/// by the folder's beginning, an ending pattern never, any other pattern by
/// the whole name.
pub open spec fn dir_pattern_excludes(name: Seq<char>, pattern: Seq<char>) -> bool {
    if is_prefix_pattern(pattern) {
        pattern.is_prefix_of(name)
    } else if is_ending_pattern(pattern) {
        false
    } else {
        name == pattern
    }
}

/// Whether `pattern` keeps the file `name` out of a copy: an ending pattern
/// by the file's ending, a pattern that begins with a dot by the whole name,
/// any other pattern never.
pub open spec fn file_pattern_excludes(name: Seq<char>, pattern: Seq<char>) -> bool {
    if is_ending_pattern(pattern) {
        pattern.subrange(1, pattern.len() as int).is_suffix_of(name)
    } else {
        pattern.len() > 0 && pattern[0] == '.' && name == pattern
    }
}

/// Whether one of `patterns` keeps the entry `name` out of a copy.
pub open spec fn is_excluded_of(name: Seq<char>, is_dir: bool, patterns: Seq<Seq<char>>) -> bool {
    exists|i: int|
        0 <= i < patterns.len() && if is_dir {
            dir_pattern_excludes(name, #[trigger] patterns[i])
        } else {
            file_pattern_excludes(name, patterns[i])
        }
}

fn is_prefix_pattern_text(pattern: &Vec<char>) -> (r: bool)
    ensures
        r == is_prefix_pattern(pattern@),
{
    pattern.len() > 0 && pattern[pattern.len() - 1] == '_'
}

fn is_ending_pattern_text(pattern: &Vec<char>) -> (r: bool)
    ensures
        r == is_ending_pattern(pattern@),
{
    pattern.len() >= 2 && pattern[0] == '*' && pattern[1] == '.'
}

/// Whether one of `patterns` keeps the entry `name` out of the skeleton
/// copy. Folders are left out by name or by the beginning of their name,
/// files by their ending or, for names that begin with a dot, by name.
pub fn is_excluded(name: &str, is_dir: bool, patterns: &[String]) -> (r: bool)
    ensures
        r == is_excluded_of(name@, is_dir, string_views(patterns@)),
{
    let n = to_chars(name);
    let ps = to_char_lists(patterns);
    let mut i: usize = 0;
    while i < ps.len()
        invariant
            i <= ps.len(),
            n@ == name@,
            views(ps@) == string_views(patterns@),
            forall|k: int|
                0 <= k < i ==> !(if is_dir {
                    dir_pattern_excludes(n@, #[trigger] views(ps@)[k])
                } else {
                    file_pattern_excludes(n@, views(ps@)[k])
                }),
        decreases ps.len() - i,
    {
        let p = &ps[i];
        let hit = if is_dir {
            if is_prefix_pattern_text(p) {
                starts_with(&n, p)
            } else if is_ending_pattern_text(p) {
                false
            } else {
                chars_eq(&n, p)
            }
        } else {
            if is_ending_pattern_text(p) {
                ends_with(&n, &subvec(p, 1, p.len()))
            } else {
                p.len() > 0 && p[0] == '.' && chars_eq(&n, p)
            }
        };
        assert(views(ps@)[i as int] == p@);
        if hit {
            return true;
        }
        i += 1;
    }
    false
}

/// The name of the archive entry for the path `relative` below the working
/// folder: the path with `/` between its segments, and with a `/` at its end
/// for a folder. The working folder itself, whose path is empty, has no
/// entry.
pub open spec fn zip_entry_name_of(relative: Seq<char>, is_dir: bool) -> Option<Seq<char>> {
    if relative.len() == 0 {
        None
    } else if is_dir {
        Some(replace_char_of(relative, '\\', '/') + "/"@)
    } else {
        Some(replace_char_of(relative, '\\', '/'))
    }
}

/// The name of the archive entry for the path `relative` below the working
/// folder, or `None` for the working folder itself.
pub fn zip_entry_name(relative: &str, is_dir: bool) -> (r: Option<String>)
    ensures
        match r {
            Some(name) => zip_entry_name_of(relative@, is_dir) == Some(name@),
            None => zip_entry_name_of(relative@, is_dir) is None,
        },
{
    let rel = to_chars(relative);
    if rel.len() == 0 {
        return None;
    }
    let name = replace_char(&rel, '\\', '/');
    if is_dir {
        Some(from_chars(&concat(&name, &to_chars("/"))))
    } else {
        Some(from_chars(&name))
    }
}

/// Whether the skeleton copy passes by the entry `name`, which a walk found
/// `depth` levels below the folder that is copied. The folder itself, at
/// depth 0, is never passed by: a project is copied whatever its own folder
/// is called.
pub open spec fn skips_entry_of(
    depth: int,
    name: Seq<char>,
    is_dir: bool,
    patterns: Seq<Seq<char>>,
) -> bool {
    depth > 0 && is_excluded_of(name, is_dir, patterns)
}

/// Whether the skeleton copy passes by the entry `name`, which a walk found
/// `depth` levels below the folder that is copied. The folder itself is
/// never passed by.
pub fn skips_entry(depth: usize, name: &str, is_dir: bool, patterns: &[String]) -> (r: bool)
    ensures
        r == skips_entry_of(depth as int, name@, is_dir, string_views(patterns@)),
{
    depth > 0 && is_excluded(name, is_dir, patterns)
}

// ---------------------------------------------------------------------------
// The entries of an archive
// ---------------------------------------------------------------------------
/// An entry of an archive: its name in the archive and where it comes from.
#[derive(Debug, Clone, PartialEq, Eq)]
pub struct ArchiveEntry {
    /// The name of the entry in the archive.
    pub name: String,
    /// The path of the file or folder below the working folder, in the
    /// notation of the host.
    pub source: String,
    /// Whether the entry is a folder.
    pub is_dir: bool,
}

/// Entries are ordered by their names.
impl Sortable for ArchiveEntry {
    open spec fn precedes_of(&self, other: &Self) -> bool {
        lex_le(self.name@, other.name@)
    }

    fn precedes(&self, other: &Self) -> (r: bool) {
        text_le(&to_chars(self.name.as_str()), &to_chars(other.name.as_str()))
    }

    proof fn lemma_total(a: &Self, b: &Self) {
        if !lex_le(a.name@, b.name@) {
            lemma_lex_total(a.name@, b.name@, 0);
        }
    }

    proof fn lemma_transitive(a: &Self, b: &Self, c: &Self) {
        lemma_lex_transitive(a.name@, b.name@, c.name@, 0);
    }
}

/// The name, the source and the kind of each entry.
pub open spec fn archive_views(entries: Seq<ArchiveEntry>) -> Seq<(Seq<char>, Seq<char>, bool)> {
    Seq::new(entries.len(), |i: int| (entries[i].name@, entries[i].source@, entries[i].is_dir))
}

/// The entries of the archive for what a walk of the working folder found,
/// in the order of the walk. The working folder itself has no entry.
pub open spec fn archive_entries_of(walked: Seq<WalkedEntry>) -> Seq<(Seq<char>, Seq<char>, bool)>
    decreases walked.len(),
{
    if walked.len() == 0 {
        Seq::empty()
    } else {
        let rest = archive_entries_of(walked.drop_last());
        let w = walked.last();
        match zip_entry_name_of(w.relative_path@, w.is_dir) {
            Some(name) => rest.push((name, w.relative_path@, w.is_dir)),
            None => rest,
        }
    }
}

/// The entries of the archive for what a walk of the working folder found,
/// in the order of their names, so that the archive is written in one order
/// whatever the order of the walk was.
pub fn archive_entries(walked: &[WalkedEntry]) -> (r: Vec<ArchiveEntry>)
    ensures
        is_sorted(r@),
        exists|found: Seq<ArchiveEntry>|
            #![trigger archive_views(found)]
            archive_views(found) == archive_entries_of(walked@) && r@ == sorted_of(found),
{
    let mut found: Vec<ArchiveEntry> = Vec::new();
    let mut i: usize = 0;
    assert(archive_views(found@) =~= archive_entries_of(walked@.take(0)));
    while i < walked.len()
        invariant
            i <= walked.len(),
            archive_views(found@) == archive_entries_of(walked@.take(i as int)),
        decreases walked.len() - i,
    {
        let ghost before = archive_views(found@);
        assert(walked@.take(i + 1).drop_last() =~= walked@.take(i as int));
        match zip_entry_name(walked[i].relative_path.as_str(), walked[i].is_dir) {
            Some(name) => {
                let entry = ArchiveEntry {
                    name,
                    source: walked[i].relative_path.clone(),
                    is_dir: walked[i].is_dir,
                };
                found.push(entry);
                assert(archive_views(found@) =~= before.push(
                    (entry.name@, entry.source@, entry.is_dir),
                ));
            },
            None => {},
        }
        i += 1;
    }
    assert(walked@.take(walked.len() as int) =~= walked@);
    let ghost unsorted = found@;
    let r = stable_sort(found);
    assert(archive_views(unsorted) == archive_entries_of(walked@));
    r
}

} // verus!
