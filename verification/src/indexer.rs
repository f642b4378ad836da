//! The index of the files of a project.
//!
//! The caller walks the project tree and reads the files; this module says
//! which folders the walk passes by and what is recorded of each file.
use vstd::prelude::*;
use vstd::string::StringExecFns;
use sha2::{Digest, Sha256};
use crate::models::FileEntry;
use crate::text::{from_chars, replace_char, replace_char_of, str_eq, to_chars};

verus! {

/// The folders that the index passes by: version control, caches of
/// dependencies, editor state and build output.
pub open spec fn ignored_dirs_of() -> Seq<Seq<char>> {
    seq![
        ".git"@,
        "node_modules"@,
        "__pycache__"@,
        ".venv"@,
        "venv"@,
        ".idea"@,
        ".vscode"@,
        "target"@,
        "dist"@,
        "build"@,
        ".next"@,
        ".nuxt"@,
    ]
}

/// Whether the index passes by the folder `name`.
pub fn is_ignored_dir(name: &str) -> (r: bool)
    ensures
        r == ignored_dirs_of().contains(name@),
{
    let l = ignored_names();
    let mut i: usize = 0;
    while i < l.len()
        invariant
            i <= l.len(),
            crate::text::string_views(l@) == ignored_dirs_of(),
            forall|k: int| 0 <= k < i ==> ignored_dirs_of()[k] != name@,
        decreases l.len() - i,
    {
        assert(crate::text::string_views(l@)[i as int] == l@[i as int]@);
        if str_eq(l[i].as_str(), name) {
            return true;
        }
        i += 1;
    }
    false
}

fn ignored_names() -> (r: Vec<String>)
    ensures
        crate::text::string_views(r@) == ignored_dirs_of(),
{
    let mut r: Vec<String> = Vec::new();
    r.push(".git".to_string());
    r.push("node_modules".to_string());
    r.push("__pycache__".to_string());
    r.push(".venv".to_string());
    r.push("venv".to_string());
    r.push(".idea".to_string());
    r.push(".vscode".to_string());
    r.push("target".to_string());
    r.push("dist".to_string());
    r.push("build".to_string());
    r.push(".next".to_string());
    r.push(".nuxt".to_string());
    assert(crate::text::string_views(r@) =~= ignored_dirs_of());
    r
}

/// The SHA-256 digest of `content` in lower-case hexadecimal, as the `sha2`
/// crate computes it.
pub uninterp spec fn sha256_hex(content: Seq<u8>) -> Seq<char>;

/// Feeds `content` to `sha2::Sha256` and writes the digest in lower-case
/// hexadecimal. The contract names the answer, which depends on the content
/// alone.
#[verifier::external_body]
pub(crate) fn sha256_of(content: &[u8]) -> (r: String)
    ensures
        r@ == sha256_hex(content@),
{
    let mut hasher = Sha256::new();
    hasher.update(content);
    format!("{:x}", hasher.finalize())
}

/// The digest of the content of a file, in lower-case hexadecimal.
pub fn compute_file_hash(content: &[u8]) -> (r: String)
    ensures
        r@ == sha256_hex(content@),
{
    sha256_of(content)
}

/// A file as the caller read it.
#[derive(Debug, Clone, PartialEq, Eq)]
pub struct RawFile {
    /// The file's path below the project root, in the notation of the host.
    pub relative_path: String,
    /// The file's content.
    pub content: Vec<u8>,
}

/// The path `path` with `/` between its segments.
pub open spec fn slash_path_of(path: Seq<char>) -> Seq<char> {
    replace_char_of(path, '\\', '/')
}

/// The entry of the index for one file: its path with `/` between the
/// segments, and the digest of its content.
pub fn file_entry(file: &RawFile) -> (r: FileEntry)
    ensures
        r.relative_path@ == slash_path_of(file.relative_path@),
        r.file_hash@ == sha256_hex(file.content@),
{
    FileEntry {
        relative_path: from_chars(&replace_char(&to_chars(file.relative_path.as_str()), '\\', '/')),
        file_hash: compute_file_hash(file.content.as_slice()),
    }
}

/// The heading of the error for a project path that does not exist.
pub open spec fn missing_project_message_of(project_path: Seq<char>) -> Seq<char> {
    "项目路径不存在："@ + project_path
}

/// The index of the files of a project, in the order in which the caller
/// found them. A project path that does not exist is an error.
pub fn scan_project_files(exists: bool, project_path: &str, files: &[RawFile]) -> (r: Result<
    Vec<FileEntry>,
    String,
>)
    ensures
        match r {
            Ok(entries) => exists && entries@.len() == files@.len() && forall|i: int|
                0 <= i < files@.len() ==> (#[trigger] entries@[i]).relative_path@ == slash_path_of(
                    files@[i].relative_path@,
                ) && entries@[i].file_hash@ == sha256_hex(files@[i].content@),
            Err(m) => !exists && m@ == missing_project_message_of(project_path@),
        },
{
    if !exists {
        return Err(String::from_str("项目路径不存在：").concat(project_path));
    }
    let mut entries: Vec<FileEntry> = Vec::new();
    let mut i: usize = 0;
    while i < files.len()
        invariant
            i <= files.len(),
            entries@.len() == i,
            forall|k: int|
                0 <= k < i ==> (#[trigger] entries@[k]).relative_path@ == slash_path_of(
                    files@[k].relative_path@,
                ) && entries@[k].file_hash@ == sha256_hex(files@[k].content@),
        decreases files.len() - i,
    {
        entries.push(file_entry(&files[i]));
        i += 1;
    }
    Ok(entries)
}

/// Whether the index passes by the entry `name`, which a walk found `depth`
/// levels below the project root: an ignored folder below the root. The root
/// itself, at depth 0, is never passed by, and neither is a file.
pub open spec fn skips_dir_of(depth: int, name: Seq<char>, is_dir: bool) -> bool {
    depth > 0 && is_dir && ignored_dirs_of().contains(name)
}

/// Whether the index passes by the entry `name`, which a walk found `depth`
/// levels below the project root. The root itself is never passed by.
pub fn skips_dir(depth: usize, name: &str, is_dir: bool) -> (r: bool)
    ensures
        r == skips_dir_of(depth as int, name@, is_dir),
{
    depth > 0 && is_dir && is_ignored_dir(name)
}

/// What the stored index holds of a file.
#[derive(Debug, Clone, PartialEq, Eq)]
pub struct StoredFile {
    /// The digest of the content when the file was last read.
    pub file_hash: String,
    /// The summary of the file, where one was made.
    pub summary: Option<String>,
    /// The size of the file when it was last read.
    pub file_size: u64,
    /// The time of the last change when the file was last read.
    pub mtime: u64,
}

/// What a scan found of a file, held against the stored index.
#[derive(Debug, Clone, PartialEq, Eq)]
pub struct IndexChange {
    /// Whether the content of the file is new or has changed.
    pub changed: bool,
    /// The summary that still holds of the file.
    pub summary: Option<String>,
    /// The digest to store.
    pub file_hash: String,
}

/// The view of a text that may be absent.
pub open spec fn opt_text_view(o: Option<String>) -> Option<Seq<char>> {
    match o {
        Some(s) => Some(s@),
        None => None,
    }
}

/// Holds a file against the stored index. A file that is not stored is new.
/// A stored file whose size and time of change are as stored is taken as
/// unchanged, with the stored digest. Any other file is changed where its
/// digest differs from the stored one, and a changed file loses its summary.
pub fn index_change(stored: Option<&StoredFile>, file_hash: &str, file_size: u64, mtime: u64) -> (r:
    IndexChange)
    ensures
        match stored {
            None => r.changed && r.summary is None && r.file_hash@ == file_hash@,
            Some(old) => if old.file_size == file_size && old.mtime == mtime {
                !r.changed && opt_text_view(r.summary) == opt_text_view(old.summary)
                    && r.file_hash@ == old.file_hash@
            } else {
                r.changed == (old.file_hash@ != file_hash@) && r.file_hash@ == file_hash@
                    && opt_text_view(r.summary) == if r.changed {
                    None
                } else {
                    opt_text_view(old.summary)
                }
            },
        },
{
    match stored {
        None => IndexChange { changed: true, summary: None, file_hash: file_hash.to_string() },
        Some(old) => {
            let summary = match &old.summary {
                Some(s) => Some(s.clone()),
                None => None,
            };
            if old.file_size == file_size && old.mtime == mtime {
                IndexChange { changed: false, summary, file_hash: old.file_hash.clone() }
            } else {
                let changed = !str_eq(old.file_hash.as_str(), file_hash);
                IndexChange {
                    changed,
                    summary: if changed {
                        None
                    } else {
                        summary
                    },
                    file_hash: file_hash.to_string(),
                }
            }
        },
    }
}

} // verus!
