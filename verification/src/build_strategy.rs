//! What the build needs to know of each technology.
use vstd::prelude::*;
use crate::error::{AppError, AppResult};
use crate::text::{str_eq, string_views};

verus! {

/// What the build needs to know of one technology.
pub trait BuildStrategy {
    /// The technology's name.
    spec fn tech_stack_of(&self) -> Seq<char>;

    /// The folders and files that the skeleton copy leaves out for this
    /// technology, besides those it always leaves out.
    spec fn extra_excludes_of(&self) -> Seq<Seq<char>>;

    /// The folder that holds the modules unless the caller names another.
    spec fn default_modules_dir_of(&self) -> Seq<char>;

    /// The technology's name.
    fn tech_stack(&self) -> (r: &str)
        ensures
            r@ == self.tech_stack_of(),
    ;

    /// The folders and files that the skeleton copy leaves out for this
    /// technology, besides those it always leaves out.
    fn extra_excludes(&self) -> (r: Vec<String>)
        ensures
            string_views(r@) == self.extra_excludes_of(),
    ;

    /// The folder that holds the modules unless the caller names another.
    fn default_modules_dir(&self) -> (r: &str)
        ensures
            r@ == self.default_modules_dir_of(),
    ;
}

/// FastAPI projects: the modules are the folders below `modules`.
pub struct FastApiBuildStrategy;

impl BuildStrategy for FastApiBuildStrategy {
    open spec fn tech_stack_of(&self) -> Seq<char> {
        "fastapi"@
    }

    open spec fn extra_excludes_of(&self) -> Seq<Seq<char>> {
        Seq::empty()
    }

    open spec fn default_modules_dir_of(&self) -> Seq<char> {
        "modules"@
    }

    fn tech_stack(&self) -> (r: &str) {
        "fastapi"
    }

    fn extra_excludes(&self) -> (r: Vec<String>) {
        let r: Vec<String> = Vec::new();
        assert(string_views(r@) =~= Seq::<Seq<char>>::empty());
        r
    }

    fn default_modules_dir(&self) -> (r: &str) {
        "modules"
    }
}

/// Vue 3 projects: the modules are the folders below `src/views`.
pub struct Vue3BuildStrategy;

impl BuildStrategy for Vue3BuildStrategy {
    open spec fn tech_stack_of(&self) -> Seq<char> {
        "vue3"@
    }

    open spec fn extra_excludes_of(&self) -> Seq<Seq<char>> {
        Seq::empty()
    }

    open spec fn default_modules_dir_of(&self) -> Seq<char> {
        "src/views"@
    }

    fn tech_stack(&self) -> (r: &str) {
        "vue3"
    }

    fn extra_excludes(&self) -> (r: Vec<String>) {
        let r: Vec<String> = Vec::new();
        assert(string_views(r@) =~= Seq::<Seq<char>>::empty());
        r
    }

    fn default_modules_dir(&self) -> (r: &str) {
        "src/views"
    }
}

/// A technology that is described by stored settings.
pub struct GenericBuildStrategy {
    name: String,
    modules_dir: String,
    extra_excludes: Vec<String>,
}

impl GenericBuildStrategy {
    /// The strategy of the technology `name`, whose modules are the folders
    /// below `modules_dir` and whose skeleton copy leaves out
    /// `extra_excludes` too.
    pub fn new(name: String, modules_dir: String, extra_excludes: Vec<String>) -> (r: Self)
        ensures
            r.tech_stack_of() == name@,
            r.default_modules_dir_of() == modules_dir@,
            r.extra_excludes_of() == string_views(extra_excludes@),
    {
        GenericBuildStrategy { name, modules_dir, extra_excludes }
    }
}

impl BuildStrategy for GenericBuildStrategy {
    closed spec fn tech_stack_of(&self) -> Seq<char> {
        self.name@
    }

    closed spec fn extra_excludes_of(&self) -> Seq<Seq<char>> {
        string_views(self.extra_excludes@)
    }

    closed spec fn default_modules_dir_of(&self) -> Seq<char> {
        self.modules_dir@
    }

    fn tech_stack(&self) -> (r: &str) {
        self.name.as_str()
    }

    fn extra_excludes(&self) -> (r: Vec<String>) {
        let mut r: Vec<String> = Vec::new();
        let mut i: usize = 0;
        while i < self.extra_excludes.len()
            invariant
                i <= self.extra_excludes.len(),
                r.len() == i,
                forall|k: int| 0 <= k < i ==> r@[k]@ == self.extra_excludes@[k]@,
            decreases self.extra_excludes.len() - i,
        {
            r.push(self.extra_excludes[i].clone());
            i += 1;
        }
        assert(string_views(r@) =~= string_views(self.extra_excludes@));
        r
    }

    fn default_modules_dir(&self) -> (r: &str) {
        self.modules_dir.as_str()
    }
}

/// The strategy of a built-in technology: `fastapi` or `vue3`. Any other
/// name is an unsupported technology.
pub fn get_builder(tech_stack: &str) -> (r: AppResult<Box<dyn BuildStrategy>>)
    ensures
        tech_stack@ == "fastapi"@ ==> r is Ok && r->Ok_0.tech_stack_of() == "fastapi"@
            && r->Ok_0.default_modules_dir_of() == "modules"@ && r->Ok_0.extra_excludes_of()
            == Seq::<Seq<char>>::empty(),
        tech_stack@ != "fastapi"@ && tech_stack@ == "vue3"@ ==> r is Ok && r->Ok_0.tech_stack_of()
            == "vue3"@ && r->Ok_0.default_modules_dir_of() == "src/views"@
            && r->Ok_0.extra_excludes_of() == Seq::<Seq<char>>::empty(),
        tech_stack@ != "fastapi"@ && tech_stack@ != "vue3"@ ==> (r matches Err(
            AppError::UnsupportedTechStack(name),
        ) && name@ == tech_stack@),
{
    if str_eq(tech_stack, "fastapi") {
        Ok(Box::new(FastApiBuildStrategy))
    } else if str_eq(tech_stack, "vue3") {
        Ok(Box::new(Vue3BuildStrategy))
    } else {
        Err(AppError::UnsupportedTechStack(tech_stack.to_string()))
    }
}

/// Declares `serde_json::Error`, the error of `serde_json::from_str`, as a
/// type whose inside is not looked at.
#[verifier::external_type_specification]
#[verifier::external_body]
pub struct ExJsonError(serde_json::Error);

/// The list of strings that `serde_json` reads from the text `json`, or
/// `None` where the text is no JSON array of strings.
pub uninterp spec fn json_string_list(json: Seq<char>) -> Option<Seq<Seq<char>>>;

/// Calls `serde_json::from_str` for a list of strings. The contract names
/// the answer, which depends on the text alone.
#[verifier::external_body]
pub(crate) fn parse_string_list(json: &str) -> (r: Result<Vec<String>, serde_json::Error>)
    ensures
        r is Ok <==> json_string_list(json@) is Some,
        r matches Ok(v) ==> json_string_list(json@) == Some(string_views(v@)),
{
    serde_json::from_str::<Vec<String>>(json)
}

/// The extra exclusions that the stored text `json` stands for: the list of
/// strings that it holds, or nothing where it holds none.
pub open spec fn stored_excludes_of(json: Seq<char>) -> Seq<Seq<char>> {
    match json_string_list(json) {
        Some(list) => list,
        None => Seq::empty(),
    }
}

/// The strategy of a technology that is described by stored settings: its
/// name, its modules folder, and its extra exclusions as a JSON array of
/// strings. A text that is no such array stands for no extra exclusions.
pub fn get_generic_builder(name: String, modules_dir: String, extra_excludes_json: String) -> (r:
    AppResult<Box<dyn BuildStrategy>>)
    ensures
        r is Ok,
        r->Ok_0.tech_stack_of() == name@,
        r->Ok_0.default_modules_dir_of() == modules_dir@,
        r->Ok_0.extra_excludes_of() == stored_excludes_of(extra_excludes_json@),
{
    let extra = match parse_string_list(extra_excludes_json.as_str()) {
        Ok(v) => v,
        Err(_) => {
            let v: Vec<String> = Vec::new();
            assert(string_views(v@) =~= Seq::<Seq<char>>::empty());
            v
        },
    };
    Ok(Box::new(GenericBuildStrategy::new(name, modules_dir, extra)))
}

} // verus!
