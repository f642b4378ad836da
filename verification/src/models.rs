//! The plain records that the library hands to its callers.
use vstd::prelude::*;

verus! {

/// A project folder that was opened, with the core files found in it.
#[derive(Debug, Clone, PartialEq, Eq)]
pub struct ProjectInfo {
    /// The absolute path of the project's root folder.
    pub path: String,
    /// The core files and folders that exist in the project.
    pub core_files: Vec<String>,
}

/// One module of a project: a folder directly below the modules folder.
#[derive(Debug, Clone, PartialEq, Eq)]
pub struct ModuleInfo {
    /// The module's name, which is the folder's name.
    pub name: String,
    /// The full path of the module's folder.
    pub path: String,
}

/// What a successful build produced.
#[derive(Debug, Clone, PartialEq, Eq)]
pub struct BuildResult {
    /// The full path of the archive.
    pub zip_path: String,
    /// The target label, trimmed.
    pub client_name: String,
    /// How many modules the archive holds.
    pub module_count: usize,
    /// The modules that the archive holds: those selected and those added
    /// because a selected module depends on them, without those that were
    /// requested but not found.
    pub expanded_modules: Vec<String>,
}

/// One file of a project.
#[derive(Debug, Clone, PartialEq, Eq)]
pub struct FileEntry {
    /// The file's path below the project root, with `/` between segments.
    pub relative_path: String,
    /// The SHA-256 digest of the file's content, in lower-case hexadecimal.
    pub file_hash: String,
}

/// An import of one project file by another.
#[derive(Debug, Clone, PartialEq, Eq)]
pub struct DependencyEdge {
    /// The importing file.
    pub source: String,
    /// The imported file, always one of the known files.
    pub target: String,
}

/// The files of one language in a project.
#[derive(Debug, Clone, PartialEq, Eq)]
pub struct LanguageStat {
    /// The language's name.
    pub language: String,
    /// How many files are written in it.
    pub file_count: u32,
    /// How many lines those files have together.
    pub line_count: u32,
}

/// A summary of a project for display.
#[derive(Debug, Clone, PartialEq, Eq)]
pub struct ProjectOverview {
    /// The number of files.
    pub total_files: u32,
    /// The number of lines in all files.
    pub total_lines: u32,
    /// The number of folders that hold a file.
    pub total_dirs: u32,
    /// The technologies that the project appears to use.
    pub tech_stack: Vec<String>,
    /// The files by language, the language with most lines first.
    pub languages: Vec<LanguageStat>,
    /// The files that look like entry points.
    pub entry_files: Vec<String>,
}

/// The declarations found in one file.
#[derive(Debug, Clone, PartialEq, Eq)]
pub struct FileSignature {
    /// The file's path below the project root.
    pub relative_path: String,
    /// The file's language.
    pub language: String,
    /// The declarations, in the order in which they stand in the file.
    pub signatures: Vec<String>,
}

/// An import edge as shown in a dependency graph.
#[derive(Debug, Clone, PartialEq, Eq)]
pub struct DepEdge {
    /// The importing file.
    pub source: String,
    /// The imported file.
    pub target: String,
}

/// The files of a project and the imports between them.
#[derive(Debug, Clone, PartialEq, Eq)]
pub struct DependencyGraph {
    /// Every file of the project.
    pub nodes: Vec<String>,
    /// Every import between two of them.
    pub edges: Vec<DepEdge>,
}

} // verus!
