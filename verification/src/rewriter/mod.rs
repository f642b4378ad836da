//! Rewriting the entry file of a package so that it refers to the packaged
//! modules only, and checking the rewritten file against the package.
use vstd::prelude::*;
use crate::rewriter::generic::{rewrite_generic_imports, rewrite_generic_of};
use crate::rewriter::python::{
    rewrite_python_imports, rewrite_python_of, validate_python_imports, validate_python_of,
};
use crate::rewriter::vue3::{
    rewrite_vue3_of, rewrite_vue3_router, validate_vue3_imports, validate_vue3_of,
};
use crate::error::{AppError, AppResult};
use crate::pipeline::{check_entry_file, missing_modules_message_of};
use crate::text::{str_eq, string_views};

pub mod alias;
pub mod generic;
pub mod laws;
pub mod python;
pub mod validate;
pub mod vue3;

verus! {

/// How the entry file of one technology is rewritten and checked.
pub trait ImportRewriter {
    /// The path of the entry file below the project root.
    spec fn entry_file_of(&self) -> Seq<char>;

    /// The rewritten text of the entry file.
    spec fn rewrite_of(
        &self,
        content: Seq<char>,
        selected: Seq<Seq<char>>,
        modules_dir: Seq<char>,
    ) -> Seq<char>;

    /// The names of the modules that the entry file refers to and the
    /// package lacks.
    spec fn validate_of(
        &self,
        content: Seq<char>,
        present: Seq<Seq<char>>,
        modules_dir: Seq<char>,
    ) -> Seq<Seq<char>>;

    /// The path of the entry file below the project root.
    fn entry_file(&self) -> (r: &str)
        ensures
            r@ == self.entry_file_of(),
    ;

    /// Rewrites the text of the entry file so that it refers to the
    /// selected modules only.
    fn rewrite(&self, content: &str, selected_modules: &[String], modules_dir: &str) -> (r: String)
        ensures
            r@ == self.rewrite_of(content@, string_views(selected_modules@), modules_dir@),
    ;

    /// Lists the names of the modules that the entry file refers to and
    /// that are not among `present_modules`. An empty list means that the
    /// check passed.
    fn validate(&self, content: &str, present_modules: &[String], modules_dir: &str) -> (r: Vec<
        String,
    >)
        ensures
            string_views(r@) == self.validate_of(
                content@,
                string_views(present_modules@),
                modules_dir@,
            ),
    ;
}

/// Rewrites `main.py`, which imports modules in one of three forms:
/// `from modules.x.routes import router as x_router`,
/// `from modules.x import routes as x_routes` and `from modules import x, y`.
pub struct FastApiImportRewriter;

impl ImportRewriter for FastApiImportRewriter {
    open spec fn entry_file_of(&self) -> Seq<char> {
        "main.py"@
    }

    open spec fn rewrite_of(
        &self,
        content: Seq<char>,
        selected: Seq<Seq<char>>,
        modules_dir: Seq<char>,
    ) -> Seq<char> {
        rewrite_python_of(content, selected, modules_dir)
    }

    open spec fn validate_of(
        &self,
        content: Seq<char>,
        present: Seq<Seq<char>>,
        modules_dir: Seq<char>,
    ) -> Seq<Seq<char>> {
        validate_python_of(content, present, modules_dir)
    }

    fn entry_file(&self) -> (r: &str) {
        "main.py"
    }

    fn rewrite(&self, content: &str, selected_modules: &[String], modules_dir: &str) -> (r: String) {
        rewrite_python_imports(content, selected_modules, modules_dir)
    }

    fn validate(&self, content: &str, present_modules: &[String], modules_dir: &str) -> (r: Vec<
        String,
    >) {
        validate_python_imports(content, present_modules, modules_dir)
    }
}

/// Rewrites `src/router/index.ts`, which imports views statically, binds
/// them to constants by deferred imports, or imports them inline in route
/// objects.
pub struct Vue3ImportRewriter;

impl ImportRewriter for Vue3ImportRewriter {
    open spec fn entry_file_of(&self) -> Seq<char> {
        "src/router/index.ts"@
    }

    open spec fn rewrite_of(
        &self,
        content: Seq<char>,
        selected: Seq<Seq<char>>,
        modules_dir: Seq<char>,
    ) -> Seq<char> {
        rewrite_vue3_of(content, selected, modules_dir)
    }

    open spec fn validate_of(
        &self,
        content: Seq<char>,
        present: Seq<Seq<char>>,
        modules_dir: Seq<char>,
    ) -> Seq<Seq<char>> {
        validate_vue3_of(content, present, modules_dir)
    }

    fn entry_file(&self) -> (r: &str) {
        "src/router/index.ts"
    }

    fn rewrite(&self, content: &str, selected_modules: &[String], modules_dir: &str) -> (r: String) {
        rewrite_vue3_router(content, selected_modules, modules_dir)
    }

    fn validate(&self, content: &str, present_modules: &[String], modules_dir: &str) -> (r: Vec<
        String,
    >) {
        validate_vue3_imports(content, present_modules, modules_dir)
    }
}

/// Rewrites a configured entry file by a configured pattern. Its check
/// passes every file.
pub struct GenericImportRewriter {
    entry_file: String,
    import_pattern: String,
    router_pattern: String,
}

impl GenericImportRewriter {
    /// The configured pattern for imports.
    pub closed spec fn import_pattern_of(&self) -> Seq<char> {
        self.import_pattern@
    }
}

impl ImportRewriter for GenericImportRewriter {
    closed spec fn entry_file_of(&self) -> Seq<char> {
        self.entry_file@
    }

    open spec fn rewrite_of(
        &self,
        content: Seq<char>,
        selected: Seq<Seq<char>>,
        modules_dir: Seq<char>,
    ) -> Seq<char> {
        rewrite_generic_of(content, selected, modules_dir, self.import_pattern_of())
    }

    open spec fn validate_of(
        &self,
        content: Seq<char>,
        present: Seq<Seq<char>>,
        modules_dir: Seq<char>,
    ) -> Seq<Seq<char>> {
        Seq::empty()
    }

    fn entry_file(&self) -> (r: &str) {
        self.entry_file.as_str()
    }

    fn rewrite(&self, content: &str, selected_modules: &[String], modules_dir: &str) -> (r: String) {
        rewrite_generic_imports(
            content,
            selected_modules,
            modules_dir,
            self.import_pattern.as_str(),
        )
    }

    fn validate(&self, content: &str, present_modules: &[String], modules_dir: &str) -> (r: Vec<
        String,
    >) {
        let r: Vec<String> = Vec::new();
        assert(string_views(r@) =~= Seq::<Seq<char>>::empty());
        r
    }
}

/// The rewriter of a built-in technology: `fastapi` or `vue3`. `None` means
/// that the technology's entry file is not rewritten.
pub fn get_rewriter(tech_stack: &str) -> (r: Option<Box<dyn ImportRewriter>>)
    ensures
        tech_stack@ == "fastapi"@ ==> r is Some && r->0.entry_file_of() == "main.py"@ && (forall|
            c: Seq<char>,
            s: Seq<Seq<char>>,
            d: Seq<char>,
        | #[trigger]
            r->0.rewrite_of(c, s, d) == rewrite_python_of(c, s, d)) && (forall|
            c: Seq<char>,
            p: Seq<Seq<char>>,
            d: Seq<char>,
        | #[trigger] r->0.validate_of(c, p, d) == validate_python_of(c, p, d)),
        tech_stack@ != "fastapi"@ && tech_stack@ == "vue3"@ ==> r is Some && r->0.entry_file_of()
            == "src/router/index.ts"@ && (forall|c: Seq<char>, s: Seq<Seq<char>>, d: Seq<char>| #[trigger]
            r->0.rewrite_of(c, s, d) == rewrite_vue3_of(c, s, d)) && (forall|
            c: Seq<char>,
            p: Seq<Seq<char>>,
            d: Seq<char>,
        | #[trigger] r->0.validate_of(c, p, d) == validate_vue3_of(c, p, d)),
        tech_stack@ != "fastapi"@ && tech_stack@ != "vue3"@ ==> r is None,
{
    if str_eq(tech_stack, "fastapi") {
        Some(Box::new(FastApiImportRewriter))
    } else if str_eq(tech_stack, "vue3") {
        Some(Box::new(Vue3ImportRewriter))
    } else {
        None
    }
}

/// The rewriter of a configured technology. `None`, which means that the
/// entry file is not rewritten, where no entry file or no pattern is
/// configured.
pub fn get_generic_rewriter(entry_file: String, import_pattern: String, router_pattern: String)
    -> (r: Option<Box<dyn ImportRewriter>>)
    ensures
        r is None <==> entry_file@.len() == 0 || import_pattern@.len() == 0,
        r is Some ==> r->0.entry_file_of() == entry_file@ && (forall|
            c: Seq<char>,
            s: Seq<Seq<char>>,
            d: Seq<char>,
        | #[trigger]
            r->0.rewrite_of(c, s, d) == rewrite_generic_of(c, s, d, import_pattern@)) && (forall|
            c: Seq<char>,
            p: Seq<Seq<char>>,
            d: Seq<char>,
        | #[trigger] r->0.validate_of(c, p, d) == Seq::<Seq<char>>::empty()),
{
    if entry_file.as_str().is_empty() || import_pattern.as_str().is_empty() {
        return None;
    }
    Some(Box::new(GenericImportRewriter { entry_file, import_pattern, router_pattern }))
}

/// Rewrites the entry file of a package. `content` is the text of the entry
/// file, or `None` where the package has none; then there is nothing to
/// rewrite, which is no error.
pub fn process_entry_file(
    rewriter: &dyn ImportRewriter,
    content: Option<&str>,
    selected_modules: &[String],
    modules_dir: &str,
) -> (r: Option<String>)
    ensures
        match content {
            Some(text) => r is Some && r->0@ == rewriter.rewrite_of(
                text@,
                string_views(selected_modules@),
                modules_dir@,
            ),
            None => r is None,
        },
{
    match content {
        Some(text) => Some(rewriter.rewrite(text, selected_modules, modules_dir)),
        None => None,
    }
}

/// Checks the rewritten entry file of a package against the modules that the
/// package holds. `content` is the text of the entry file, or `None` where
/// the package has none, which passes. The check fails with a build error
/// that lists the missing modules where the entry file refers to a module
/// that is not among `present_modules`.
pub fn validate_entry_file(
    rewriter: &dyn ImportRewriter,
    content: Option<&str>,
    present_modules: &[String],
    modules_dir: &str,
) -> (r: AppResult<()>)
    ensures
        match r {
            Ok(_) => content is None || rewriter.validate_of(
                content->0@,
                string_views(present_modules@),
                modules_dir@,
            ).len() == 0,
            Err(AppError::BuildError(m)) => content is Some && rewriter.validate_of(
                content->0@,
                string_views(present_modules@),
                modules_dir@,
            ).len() > 0 && m@ == missing_modules_message_of(
                rewriter.validate_of(content->0@, string_views(present_modules@), modules_dir@),
                modules_dir@,
            ),
            Err(_) => false,
        },
{
    match content {
        Some(text) => {
            let missing = rewriter.validate(text, present_modules, modules_dir);
            assert(missing@.len() == string_views(missing@).len());
            check_entry_file(missing.as_slice(), modules_dir)
        },
        None => Ok(()),
    }
}

} // verus!
