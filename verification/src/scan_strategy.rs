//! How the modules of each technology are found.
use vstd::prelude::*;
use vstd::string::StringExecFns;
use crate::error::{AppError, AppResult};
use crate::models::ModuleInfo;
use crate::scanner::{DirEntry, modules_among, scan_modules_dir, unreadable_modules_message};
use crate::sorting::sorted_of;
use crate::text::str_eq;

verus! {

/// The folder that is scanned: the one the caller names, or the default of
/// the technology where the caller names none.
pub open spec fn scan_dir_of(modules_dir: Seq<char>, default: Seq<char>) -> Seq<char> {
    if modules_dir.len() == 0 {
        default
    } else {
        modules_dir
    }
}

/// The message for a project without the folder `dir` that the technology
/// `tech` keeps its modules in.
pub open spec fn missing_dir_message_of(tech: Seq<char>, dir: Seq<char>) -> Seq<char> {
    tech + " 项目应包含 "@ + dir + " 目录"@
}

/// What a scan answers. `found` is `None` where the scanned folder does not
/// exist; else it holds the listing of the folder, which is `None` where the
/// folder could not be read.
pub open spec fn scan_of(
    tech: Seq<char>,
    dir: Seq<char>,
    found: Option<Option<Vec<DirEntry>>>,
    r: AppResult<Vec<ModuleInfo>>,
) -> bool {
    match found {
        None => r matches Err(AppError::ScanError(m)) && m@ == missing_dir_message_of(tech, dir),
        Some(None) => r matches Err(AppError::ScanError(m)) && m@ == unreadable_modules_message(),
        Some(Some(entries)) => r matches Ok(modules) && modules@ == sorted_of(
            modules_among(entries@),
        ),
    }
}

/// How the modules of one technology are found.
pub trait ScanStrategy {
    /// The technology's name.
    spec fn tech_of(&self) -> Seq<char>;

    /// The folder that holds the modules unless the caller names another.
    spec fn default_dir_of(&self) -> Seq<char>;

    /// The folder to scan, below the project root.
    fn modules_dir(&self, modules_dir: &str) -> (r: String)
        ensures
            r@ == scan_dir_of(modules_dir@, self.default_dir_of()),
    ;

    /// Lists the modules of a project. `found` tells what the caller saw of
    /// the folder to scan: `None` where it is no folder, else its listing,
    /// which is `None` where it could not be read.
    fn scan(&self, modules_dir: &str, found: Option<Option<Vec<DirEntry>>>) -> (r: AppResult<
        Vec<ModuleInfo>,
    >)
        ensures
            scan_of(
                self.tech_of(),
                scan_dir_of(modules_dir@, self.default_dir_of()),
                found,
                r,
            ),
    ;
}

fn scan_dir(modules_dir: &str, default: &str) -> (r: String)
    ensures
        r@ == scan_dir_of(modules_dir@, default@),
{
    if modules_dir.is_empty() {
        default.to_string()
    } else {
        modules_dir.to_string()
    }
}

fn scan_with(tech: &str, dir: String, found: Option<Option<Vec<DirEntry>>>) -> (r: AppResult<
    Vec<ModuleInfo>,
>)
    ensures
        scan_of(tech@, dir@, found, r),
{
    match found {
        None => {
            let m = String::from_str(tech).concat(" 项目应包含 ").concat(dir.as_str()).concat(
                " 目录",
            );
            Err(AppError::ScanError(m))
        },
        Some(listing) => scan_modules_dir(listing),
    }
}

/// FastAPI projects keep their modules below `modules`.
pub struct FastApiScanner;

impl ScanStrategy for FastApiScanner {
    open spec fn tech_of(&self) -> Seq<char> {
        "fastapi"@
    }

    open spec fn default_dir_of(&self) -> Seq<char> {
        "modules"@
    }

    fn modules_dir(&self, modules_dir: &str) -> (r: String) {
        scan_dir(modules_dir, "modules")
    }

    fn scan(&self, modules_dir: &str, found: Option<Option<Vec<DirEntry>>>) -> (r: AppResult<
        Vec<ModuleInfo>,
    >) {
        scan_with("fastapi", scan_dir(modules_dir, "modules"), found)
    }
}

/// Vue 3 projects keep their modules below `src/views`.
pub struct Vue3Scanner;

impl ScanStrategy for Vue3Scanner {
    open spec fn tech_of(&self) -> Seq<char> {
        "vue3"@
    }

    open spec fn default_dir_of(&self) -> Seq<char> {
        "src/views"@
    }

    fn modules_dir(&self, modules_dir: &str) -> (r: String) {
        scan_dir(modules_dir, "src/views")
    }

    fn scan(&self, modules_dir: &str, found: Option<Option<Vec<DirEntry>>>) -> (r: AppResult<
        Vec<ModuleInfo>,
    >) {
        scan_with("vue3", scan_dir(modules_dir, "src/views"), found)
    }
}

/// The scanner of a built-in technology: `fastapi` or `vue3`. Any other name
/// is an unsupported technology.
pub fn get_scanner(tech_stack: &str) -> (r: AppResult<Box<dyn ScanStrategy>>)
    ensures
        tech_stack@ == "fastapi"@ ==> r is Ok && r->Ok_0.tech_of() == "fastapi"@
            && r->Ok_0.default_dir_of() == "modules"@,
        tech_stack@ != "fastapi"@ && tech_stack@ == "vue3"@ ==> r is Ok && r->Ok_0.tech_of()
            == "vue3"@ && r->Ok_0.default_dir_of() == "src/views"@,
        tech_stack@ != "fastapi"@ && tech_stack@ != "vue3"@ ==> (r matches Err(
            AppError::UnsupportedTechStack(name),
        ) && name@ == tech_stack@),
{
    if str_eq(tech_stack, "fastapi") {
        Ok(Box::new(FastApiScanner))
    } else if str_eq(tech_stack, "vue3") {
        Ok(Box::new(Vue3Scanner))
    } else {
        Err(AppError::UnsupportedTechStack(tech_stack.to_string()))
    }
}

} // verus!
