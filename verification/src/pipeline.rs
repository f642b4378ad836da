//! The build of a package, stage by stage.
//!
//! The caller does the work of each stage on disk and reports how it went;
//! this module decides what comes next. A build that holds a working folder
//! always removes it before it ends, whether the stages succeeded or not, and
//! a build whose archive stage failed removes the unfinished archive first.
//! No error of a stage is lost: it ends the build, or it is kept as a
//! warning.
use vstd::prelude::*;
use crate::build_strategy::BuildStrategy;
use crate::error::{AppError, AppResult};
use crate::models::{BuildResult, DependencyEdge};
use crate::packer::{build_params_error_of, validate_build_params};
use crate::resolver::{
    DependencyClosure, edge_views, not_among_of, resolve_module_dependencies, resolve_of,
};
use crate::text::{
    append, copy_chars, decimal_of, dedup_of, from_chars, join, join_of, list_contains,
    string_views, to_char_lists, to_chars, to_strings, trim, trim_of, views, zero_padded,
    zero_padded_of,
};

verus! {

// ---------------------------------------------------------------------------
// Stages
// ---------------------------------------------------------------------------
/// The stages of a build, in their order.
#[derive(Debug, Clone, Copy, PartialEq, Eq, Structural)]
pub enum BuildStage {
    /// The parameters are checked. Nothing on disk is touched yet.
    ValidateParams,
    /// The working folder is created.
    AcquireWorkspace,
    /// The project is copied without its modules folder and without noise.
    CopySkeleton,
    /// The selection is expanded by the modules that it needs.
    ResolveClosure,
    /// The modules of the closure are copied.
    CopyModules,
    /// The entry file is rewritten.
    RewriteEntry,
    /// The rewritten entry file is checked against the copied modules.
    ValidateEntry,
    /// The working folder is archived.
    Archive,
    /// The archive is removed, which the failed stage before may have
    /// written in part.
    DiscardArchive,
    /// The working folder is removed.
    ReleaseWorkspace,
    /// The build has ended.
    Done,
}

/// Where a build stands, the error it will end with, and the errors that it
/// got over.
#[derive(Debug, Clone, PartialEq, Eq)]
pub struct BuildState {
    /// The stage whose work is due.
    pub stage: BuildStage,
    /// The error that ends the build: that of the first stage whose failure
    /// the build does not get over.
    pub failure: Option<AppError>,
    /// Every other error that a stage reported, in the order in which they
    /// came: the build went on, and the caller is told.
    pub warnings: Vec<AppError>,
}

/// Whether the working folder exists while the work of `stage` is due.
pub open spec fn holds_workspace(stage: BuildStage) -> bool {
    match stage {
        BuildStage::ValidateParams | BuildStage::AcquireWorkspace | BuildStage::Done => false,
        _ => true,
    }
}

/// Whether an unfinished archive may lie beside the working folder while the
/// work of `stage` is due.
pub open spec fn may_hold_archive(stage: BuildStage) -> bool {
    stage == BuildStage::DiscardArchive
}

/// Whether a failure of `stage` ends the build with an error. A failure to
/// resolve the closure does not: the build goes on with the selection as it
/// is. Neither does a failure to remove the archive or the working folder.
pub open spec fn is_fatal_at(stage: BuildStage) -> bool {
    match stage {
        BuildStage::ResolveClosure
        | BuildStage::DiscardArchive
        | BuildStage::ReleaseWorkspace
        | BuildStage::Done => false,
        _ => true,
    }
}

/// The stage that follows `stage` once its work succeeded (`ok`) or failed.
pub open spec fn next_stage_of(stage: BuildStage, ok: bool) -> BuildStage {
    match stage {
        BuildStage::ValidateParams => if ok {
            BuildStage::AcquireWorkspace
        } else {
            BuildStage::Done
        },
        BuildStage::AcquireWorkspace => if ok {
            BuildStage::CopySkeleton
        } else {
            BuildStage::Done
        },
        BuildStage::CopySkeleton => if ok {
            BuildStage::ResolveClosure
        } else {
            BuildStage::ReleaseWorkspace
        },
        BuildStage::ResolveClosure => BuildStage::CopyModules,
        BuildStage::CopyModules => if ok {
            BuildStage::RewriteEntry
        } else {
            BuildStage::ReleaseWorkspace
        },
        BuildStage::RewriteEntry => if ok {
            BuildStage::ValidateEntry
        } else {
            BuildStage::ReleaseWorkspace
        },
        BuildStage::ValidateEntry => if ok {
            BuildStage::Archive
        } else {
            BuildStage::ReleaseWorkspace
        },
        BuildStage::Archive => if ok {
            BuildStage::ReleaseWorkspace
        } else {
            BuildStage::DiscardArchive
        },
        BuildStage::DiscardArchive => BuildStage::ReleaseWorkspace,
        BuildStage::ReleaseWorkspace => BuildStage::Done,
        BuildStage::Done => BuildStage::Done,
    }
}

/// The place of `stage` in the order of the stages.
pub open spec fn stage_rank(stage: BuildStage) -> nat {
    match stage {
        BuildStage::ValidateParams => 0,
        BuildStage::AcquireWorkspace => 1,
        BuildStage::CopySkeleton => 2,
        BuildStage::ResolveClosure => 3,
        BuildStage::CopyModules => 4,
        BuildStage::RewriteEntry => 5,
        BuildStage::ValidateEntry => 6,
        BuildStage::Archive => 7,
        BuildStage::DiscardArchive => 8,
        BuildStage::ReleaseWorkspace => 9,
        BuildStage::Done => 10,
    }
}

impl BuildState {
    /// The state of a build that has not begun.
    pub fn new() -> (s: BuildState)
        ensures
            s.stage == BuildStage::ValidateParams,
            s.failure is None,
            s.warnings@.len() == 0,
    {
        BuildState { stage: BuildStage::ValidateParams, failure: None, warnings: Vec::new() }
    }

    /// Whether the build has ended.
    pub fn is_done(&self) -> (r: bool)
        ensures
            r == (self.stage == BuildStage::Done),
    {
        self.stage == BuildStage::Done
    }

    /// Moves on from the stage whose work was done, with the `outcome` of
    /// that work.
    ///
    /// After a success the next stage is due. After a failure of a stage
    /// that holds the working folder, the removal of the folder is due, and
    /// before it, after a failed archive stage, the removal of the archive;
    /// a failure before the folder exists ends the build at once. No error is
    /// lost: the error of the first stage whose failure ends the build is
    /// kept as the failure, and every other error is added to the warnings.
    pub fn advance(self, outcome: Result<(), AppError>) -> (r: BuildState)
        ensures
            r.stage == next_stage_of(self.stage, outcome is Ok),
            r.failure == (match self.failure {
                Some(e) => Some(e),
                None => match outcome {
                    Err(e) => if is_fatal_at(self.stage) {
                        Some(e)
                    } else {
                        None
                    },
                    Ok(_) => None,
                },
            }),
            r.warnings@ == (match outcome {
                Err(e) => if self.failure is None && is_fatal_at(self.stage) {
                    self.warnings@
                } else {
                    self.warnings@.push(e)
                },
                Ok(_) => self.warnings@,
            }),
            self.stage != BuildStage::Done ==> stage_rank(r.stage) > stage_rank(self.stage),
            holds_workspace(self.stage) && self.stage != BuildStage::ReleaseWorkspace
                ==> holds_workspace(r.stage),
            r.stage == BuildStage::ReleaseWorkspace ==> holds_workspace(self.stage),
            r.stage == BuildStage::Done && self.stage != BuildStage::Done ==> (self.stage
                == BuildStage::ReleaseWorkspace || !holds_workspace(self.stage)),
            may_hold_archive(r.stage) <==> self.stage == BuildStage::Archive && outcome is Err,
            may_hold_archive(self.stage) ==> r.stage == BuildStage::ReleaseWorkspace,
    {
        let BuildState { stage: current, failure: failed, warnings } = self;
        let mut warnings = warnings;
        let ok = outcome.is_ok();
        let fatal = match current {
            BuildStage::ResolveClosure
            | BuildStage::DiscardArchive
            | BuildStage::ReleaseWorkspace
            | BuildStage::Done => false,
            _ => true,
        };
        let stage = match current {
            BuildStage::ValidateParams => if ok {
                BuildStage::AcquireWorkspace
            } else {
                BuildStage::Done
            },
            BuildStage::AcquireWorkspace => if ok {
                BuildStage::CopySkeleton
            } else {
                BuildStage::Done
            },
            BuildStage::CopySkeleton => if ok {
                BuildStage::ResolveClosure
            } else {
                BuildStage::ReleaseWorkspace
            },
            BuildStage::ResolveClosure => BuildStage::CopyModules,
            BuildStage::CopyModules => if ok {
                BuildStage::RewriteEntry
            } else {
                BuildStage::ReleaseWorkspace
            },
            BuildStage::RewriteEntry => if ok {
                BuildStage::ValidateEntry
            } else {
                BuildStage::ReleaseWorkspace
            },
            BuildStage::ValidateEntry => if ok {
                BuildStage::Archive
            } else {
                BuildStage::ReleaseWorkspace
            },
            BuildStage::Archive => if ok {
                BuildStage::ReleaseWorkspace
            } else {
                BuildStage::DiscardArchive
            },
            BuildStage::DiscardArchive => BuildStage::ReleaseWorkspace,
            BuildStage::ReleaseWorkspace => BuildStage::Done,
            BuildStage::Done => BuildStage::Done,
        };
        let failure = match failed {
            Some(e) => {
                match outcome {
                    Err(later) => {
                        warnings.push(later);
                    },
                    Ok(_) => {},
                }
                Some(e)
            },
            None => match outcome {
                Err(e) => if fatal {
                    Some(e)
                } else {
                    warnings.push(e);
                    None
                },
                Ok(_) => None,
            },
        };
        BuildState { stage, failure, warnings }
    }
}

/// The stage that a build stands at after the outcomes `outcomes`, from
/// `stage` on.
pub open spec fn run_of(stage: BuildStage, outcomes: Seq<bool>) -> BuildStage
    decreases outcomes.len(),
{
    if outcomes.len() == 0 {
        stage
    } else {
        next_stage_of(run_of(stage, outcomes.drop_last()), outcomes.last())
    }
}

/// A build that holds the working folder keeps holding it until it has
/// ended.
pub proof fn lemma_run_keeps_workspace(stage: BuildStage, outcomes: Seq<bool>)
    requires
        holds_workspace(stage),
    ensures
        holds_workspace(run_of(stage, outcomes)) || run_of(stage, outcomes) == BuildStage::Done,
    decreases outcomes.len(),
{
    if outcomes.len() > 0 {
        lemma_run_keeps_workspace(stage, outcomes.drop_last());
    }
}

/// A build that holds the working folder does not end before the removal of
/// the folder was due, whatever the outcomes of its stages are.
pub proof fn lemma_workspace_is_released(stage: BuildStage, outcomes: Seq<bool>)
    requires
        holds_workspace(stage),
        run_of(stage, outcomes) == BuildStage::Done,
    ensures
        exists|k: int|
            0 <= k < outcomes.len() && #[trigger] run_of(stage, outcomes.take(k))
                == BuildStage::ReleaseWorkspace,
    decreases outcomes.len(),
{
    if outcomes.len() > 0 {
        let init = outcomes.drop_last();
        let prev = run_of(stage, init);
        lemma_run_keeps_workspace(stage, init);
        if prev == BuildStage::Done {
            lemma_workspace_is_released(stage, init);
            let k = choose|k: int|
                0 <= k < init.len() && #[trigger] run_of(stage, init.take(k))
                    == BuildStage::ReleaseWorkspace;
            assert(outcomes.take(k) =~= init.take(k));
        } else {
            assert(prev == BuildStage::ReleaseWorkspace);
            assert(outcomes.take(outcomes.len() - 1) =~= init);
        }
    }
}

/// The removal of the working folder is due at most once: the build ends
/// with it, and a build that has ended stays so.
pub proof fn lemma_release_ends_the_build(outcomes: Seq<bool>)
    requires
        outcomes.len() > 0,
    ensures
        run_of(BuildStage::ReleaseWorkspace, outcomes) == BuildStage::Done,
    decreases outcomes.len(),
{
    if outcomes.len() > 1 {
        lemma_release_ends_the_build(outcomes.drop_last());
    } else {
        assert(run_of(BuildStage::ReleaseWorkspace, outcomes.drop_last())
            == BuildStage::ReleaseWorkspace);
    }
}

/// A build whose archive stage failed does not end before the removal of the
/// archive was due, and after it the removal of the working folder: nothing
/// that the build wrote stays beside the project.
pub proof fn lemma_failed_archive_is_discarded(outcomes: Seq<bool>)
    requires
        outcomes.len() > 0,
        !outcomes[0],
        run_of(BuildStage::Archive, outcomes) == BuildStage::Done,
    ensures
        outcomes.len() >= 3,
        run_of(BuildStage::Archive, outcomes.take(1)) == BuildStage::DiscardArchive,
        run_of(BuildStage::Archive, outcomes.take(2)) == BuildStage::ReleaseWorkspace,
{
    let one = outcomes.take(1);
    let two = outcomes.take(2);
    assert(one.drop_last() =~= Seq::<bool>::empty());
    assert(run_of(BuildStage::Archive, one.drop_last()) == BuildStage::Archive);
    assert(one.last() == outcomes[0]);
    assert(run_of(BuildStage::Archive, one) == BuildStage::DiscardArchive);
    if outcomes.len() == 1 {
        assert(one =~= outcomes);
    } else {
        assert(two.drop_last() =~= one);
        assert(run_of(BuildStage::Archive, two) == BuildStage::ReleaseWorkspace);
        if outcomes.len() == 2 {
            assert(two =~= outcomes);
        }
    }
}

/// The removal of the archive is due only after a failed archive stage.
pub proof fn lemma_archive_is_kept_after_success(stage: BuildStage, ok: bool)
    ensures
        next_stage_of(stage, ok) == BuildStage::DiscardArchive <==> stage == BuildStage::Archive
            && !ok,
{
}

/// Every build has ended after ten outcomes.
pub proof fn lemma_build_ends(stage: BuildStage, outcomes: Seq<bool>)
    ensures
        stage_rank(run_of(stage, outcomes)) >= if stage_rank(stage) + outcomes.len() < 10 {
            stage_rank(stage) + outcomes.len()
        } else {
            10
        },
    decreases outcomes.len(),
{
    if outcomes.len() > 0 {
        lemma_build_ends(stage, outcomes.drop_last());
    }
}

/// The line that reports the work of `stage` to the caller's log.
pub fn stage_label(stage: BuildStage) -> (r: &'static str)
    ensures
        r@ == (match stage {
            BuildStage::ValidateParams => "validating the parameters"@,
            BuildStage::AcquireWorkspace => "creating the working folder"@,
            BuildStage::CopySkeleton => "copying the project skeleton"@,
            BuildStage::ResolveClosure => "resolving the dependencies of the selection"@,
            BuildStage::CopyModules => "copying the modules"@,
            BuildStage::RewriteEntry => "rewriting the entry file"@,
            BuildStage::ValidateEntry => "checking the entry file"@,
            BuildStage::Archive => "writing the archive"@,
            BuildStage::DiscardArchive => "removing the unfinished archive"@,
            BuildStage::ReleaseWorkspace => "removing the working folder"@,
            BuildStage::Done => "done"@,
        }),
{
    match stage {
        BuildStage::ValidateParams => "validating the parameters",
        BuildStage::AcquireWorkspace => "creating the working folder",
        BuildStage::CopySkeleton => "copying the project skeleton",
        BuildStage::ResolveClosure => "resolving the dependencies of the selection",
        BuildStage::CopyModules => "copying the modules",
        BuildStage::RewriteEntry => "rewriting the entry file",
        BuildStage::ValidateEntry => "checking the entry file",
        BuildStage::Archive => "writing the archive",
        BuildStage::DiscardArchive => "removing the unfinished archive",
        BuildStage::ReleaseWorkspace => "removing the working folder",
        BuildStage::Done => "done",
    }
}

// ---------------------------------------------------------------------------
// The plan of a build
// ---------------------------------------------------------------------------
/// The folders and files that no package holds: version control, caches of
/// dependencies, build output, editor state, and files with secrets.
pub open spec fn default_excludes_of() -> Seq<Seq<char>> {
    seq![
        ".git"@,
        "node_modules"@,
        "__pycache__"@,
        ".venv"@,
        "venv"@,
        "target"@,
        "dist"@,
        "build"@,
        ".next"@,
        ".nuxt"@,
        ".idea"@,
        ".vscode"@,
        ".DS_Store"@,
        ".pytest_cache"@,
        ".mypy_cache"@,
        ".tox"@,
        "eggs"@,
        "*.egg-info"@,
        ".env"@,
        ".env.local"@,
        ".env.production"@,
        ".env.development"@,
    ]
}

/// The folders and files that no package holds.
pub fn default_excludes() -> (r: Vec<String>)
    ensures
        string_views(r@) == default_excludes_of(),
{
    let mut r: Vec<String> = Vec::new();
    r.push(".git".to_string());
    r.push("node_modules".to_string());
    r.push("__pycache__".to_string());
    r.push(".venv".to_string());
    r.push("venv".to_string());
    r.push("target".to_string());
    r.push("dist".to_string());
    r.push("build".to_string());
    r.push(".next".to_string());
    r.push(".nuxt".to_string());
    r.push(".idea".to_string());
    r.push(".vscode".to_string());
    r.push(".DS_Store".to_string());
    r.push(".pytest_cache".to_string());
    r.push(".mypy_cache".to_string());
    r.push(".tox".to_string());
    r.push("eggs".to_string());
    r.push("*.egg-info".to_string());
    r.push(".env".to_string());
    r.push(".env.local".to_string());
    r.push(".env.production".to_string());
    r.push(".env.development".to_string());
    assert(string_views(r@) =~= default_excludes_of());
    r
}

/// What the skeleton copy of a build leaves out: the default list, the
/// working folders and archives of earlier builds, and what the technology
/// adds.
pub open spec fn skeleton_excludes_of(extra: Seq<Seq<char>>) -> Seq<Seq<char>> {
    default_excludes_of() + seq!["dist_"@, "*.zip"@] + extra
}

/// What is fixed once the parameters of a build are accepted.
#[derive(Debug, Clone, PartialEq, Eq)]
pub struct BuildPlan {
    /// The target label, trimmed.
    pub client_name: String,
    /// The folder that holds the modules.
    pub modules_dir: String,
    /// The name of the working folder.
    pub dist_name: String,
    /// The name of the archive, which lies beside the working folder.
    pub zip_name: String,
    /// What the skeleton copy leaves out.
    pub excludes: Vec<String>,
}

/// The name of the working folder for the target `client_name` at the time
/// `timestamp`.
pub open spec fn dist_name_of(client_name: Seq<char>, timestamp: Seq<char>) -> Seq<char> {
    "dist_"@ + trim_of(client_name) + "_"@ + timestamp
}

/// The modules folder of a build: the one the caller names, or the default
/// of the technology where the caller names none.
pub open spec fn modules_dir_of(modules_dir_override: Seq<char>, default: Seq<char>) -> Seq<char> {
    if modules_dir_override.len() == 0 {
        default
    } else {
        modules_dir_override
    }
}

/// Checks the parameters of a build and fixes its names.
///
/// The parameters are rejected exactly where `validate_build_params` rejects
/// them, with the same error. Otherwise the plan holds the modules folder,
/// the name of the working folder, which ends with `timestamp` so that two
/// builds for one target do not collide, the name of the archive, and the
/// list of what the skeleton copy leaves out.
pub fn plan_build(
    strategy: &dyn BuildStrategy,
    selected_modules: &[String],
    client_name: &str,
    modules_dir_override: &str,
    timestamp: &str,
) -> (r: AppResult<BuildPlan>)
    ensures
        match r {
            Ok(p) => {
                &&& build_params_error_of(client_name@, selected_modules@.len() as int) is None
                &&& p.client_name@ == trim_of(client_name@)
                &&& p.modules_dir@ == modules_dir_of(
                    modules_dir_override@,
                    strategy.default_modules_dir_of(),
                )
                &&& p.dist_name@ == dist_name_of(client_name@, timestamp@)
                &&& p.zip_name@ == dist_name_of(client_name@, timestamp@) + ".zip"@
                &&& string_views(p.excludes@) == skeleton_excludes_of(strategy.extra_excludes_of())
            },
            Err(AppError::ValidationError(m)) => build_params_error_of(
                client_name@,
                selected_modules@.len() as int,
            ) == Some(m@),
            Err(_) => false,
        },
{
    match validate_build_params(client_name, selected_modules) {
        Ok(_) => {},
        Err(e) => {
            return Err(e);
        },
    }
    let name = trim(&to_chars(client_name));
    let modules_dir = if modules_dir_override.is_empty() {
        strategy.default_modules_dir().to_string()
    } else {
        modules_dir_override.to_string()
    };
    let mut dist = to_chars("dist_");
    append(&mut dist, &name);
    append(&mut dist, &to_chars("_"));
    append(&mut dist, &to_chars(timestamp));
    let mut zip = copy_chars(&dist);
    append(&mut zip, &to_chars(".zip"));
    let mut excludes = default_excludes();
    excludes.push("dist_".to_string());
    excludes.push("*.zip".to_string());
    let extra = strategy.extra_excludes();
    let ghost base = string_views(excludes@);
    assert(base =~= default_excludes_of() + seq!["dist_"@, "*.zip"@]);
    let mut i: usize = 0;
    assert(string_views(excludes@) =~= base + string_views(extra@).take(0));
    while i < extra.len()
        invariant
            i <= extra.len(),
            string_views(excludes@) == base + string_views(extra@).take(i as int),
        decreases extra.len() - i,
    {
        let ghost before = string_views(excludes@);
        let item = extra[i].clone();
        assert(item@ == extra@[i as int]@);
        excludes.push(item);
        assert(string_views(excludes@) =~= before.push(extra@[i as int]@));
        i += 1;
        assert(string_views(excludes@) =~= base + string_views(extra@).take(i as int));
    }
    assert(string_views(extra@).take(extra.len() as int) =~= string_views(extra@));
    Ok(
        BuildPlan {
            client_name: from_chars(&name),
            modules_dir,
            dist_name: from_chars(&dist),
            zip_name: from_chars(&zip),
            excludes,
        },
    )
}

// ---------------------------------------------------------------------------
// The decisions of the stages
// ---------------------------------------------------------------------------
/// The message for a disk that is too full.
pub open spec fn disk_space_message_of(estimated_size: u64, available: u64) -> Seq<char> {
    "磁盘可用空间不足：需要约 "@ + decimal_of((estimated_size as nat * 2) / 1024 / 1024)
        + " MB，当前可用 "@ + decimal_of(available as nat / 1024 / 1024) + " MB"@
}

/// Checks that the disk has room for the working folder and the archive:
/// twice the estimated size of the project. A size or a free space of zero
/// means that the figure is not known, and passes.
pub fn check_disk_space(estimated_size: u64, available: u64) -> (r: AppResult<()>)
    ensures
        match r {
            Ok(_) => !(available > 0 && estimated_size > 0 && available < estimated_size * 2),
            Err(AppError::BuildError(m)) => available > 0 && estimated_size > 0 && available
                < estimated_size * 2 && m@ == disk_space_message_of(estimated_size, available),
            Err(_) => false,
        },
{
    let needed: u128 = estimated_size as u128 * 2;
    if available > 0 && estimated_size > 0 && (available as u128) < needed {
        let needed_mb: u128 = needed / 1024 / 1024;
        let mut m = to_chars("磁盘可用空间不足：需要约 ");
        append(&mut m, &crate::text::decimal(needed_mb as u64));
        append(&mut m, &to_chars(" MB，当前可用 "));
        append(&mut m, &crate::text::decimal(available / 1024 / 1024));
        append(&mut m, &to_chars(" MB"));
        Err(AppError::BuildError(from_chars(&m)))
    } else {
        Ok(())
    }
}

/// The modules that a build packages, given the imports between the files of
/// the project, where they could be read.
///
/// Without a list of the existing modules, or without the imports, the
/// selection is taken as it is. Otherwise the selection is closed under the
/// dependencies between the modules.
pub fn expand_selection(
    selected_modules: &[String],
    all_module_names: &[String],
    modules_dir: &str,
    edges: Option<&Vec<DependencyEdge>>,
) -> (r: DependencyClosure)
    ensures
        (all_module_names@.len() == 0 || edges is None) ==> string_views(r.modules@)
            == string_views(selected_modules@) && r.auto_added@.len() == 0 && r.missing@.len()
            == 0,
        (all_module_names@.len() > 0 && edges is Some) ==> string_views(r.modules@) == resolve_of(
            edge_views(edges->0@),
            modules_dir@,
            string_views(selected_modules@),
            string_views(all_module_names@),
        ) && string_views(r.auto_added@) == string_views(r.modules@).subrange(
            dedup_of(string_views(selected_modules@)).len() as int,
            r.modules@.len() as int,
        ) && string_views(r.missing@) == not_among_of(
            dedup_of(string_views(selected_modules@)),
            string_views(all_module_names@),
        ),
        forall|m: Seq<char>|
            string_views(selected_modules@).contains(m) ==> string_views(r.modules@).contains(m),
{
    match edges {
        Some(e) => {
            if all_module_names.len() > 0 {
                return resolve_module_dependencies(
                    e.as_slice(),
                    modules_dir,
                    selected_modules,
                    all_module_names,
                );
            }
        },
        None => {},
    }
    DependencyClosure {
        modules: to_strings(&to_char_lists(selected_modules)),
        auto_added: Vec::new(),
        missing: Vec::new(),
    }
}

/// The names of `names` that are not among `skipped`, in order.
pub open spec fn without_of(names: Seq<Seq<char>>, skipped: Seq<Seq<char>>) -> Seq<Seq<char>>
    decreases names.len(),
{
    if names.len() == 0 {
        Seq::empty()
    } else {
        let rest = without_of(names.drop_last(), skipped);
        if skipped.contains(names.last()) {
            rest
        } else {
            rest.push(names.last())
        }
    }
}

/// The message for a build none of whose modules exists.
pub open spec fn no_module_message() -> Seq<char> {
    "所有选中的模块目录均不存在，无法构建"@
}

/// Decides how the copy of the modules ended: `expanded` are the modules of
/// the closure, `skipped` those whose folder does not exist.
///
/// Where no module is left, the build fails: a package without modules is
/// not delivered. Otherwise the modules that were copied are returned, in
/// the order of the closure.
pub fn finish_module_copy(expanded: &[String], skipped: &[String]) -> (r: AppResult<Vec<String>>)
    ensures
        match r {
            Ok(actual) => string_views(actual@) == without_of(
                string_views(expanded@),
                string_views(skipped@),
            ) && actual@.len() > 0,
            Err(AppError::BuildError(m)) => without_of(
                string_views(expanded@),
                string_views(skipped@),
            ).len() == 0 && m@ == no_module_message(),
            Err(_) => false,
        },
{
    let names = to_char_lists(expanded);
    let gone = to_char_lists(skipped);
    let mut actual: Vec<Vec<char>> = Vec::new();
    let mut i: usize = 0;
    while i < names.len()
        invariant
            i <= names.len(),
            views(actual@) == without_of(views(names@).take(i as int), views(gone@)),
        decreases names.len() - i,
    {
        let ghost before = views(actual@);
        assert(views(names@).take(i + 1).drop_last() =~= views(names@).take(i as int));
        if !list_contains(&gone, &names[i]) {
            actual.push(copy_chars(&names[i]));
            assert(views(actual@) =~= before.push(names@[i as int]@));
        }
        i += 1;
    }
    assert(views(names@).take(names.len() as int) =~= views(names@));
    if actual.len() == 0 {
        Err(AppError::BuildError("所有选中的模块目录均不存在，无法构建".to_string()))
    } else {
        let r = to_strings(&actual);
        assert(r@.len() == string_views(r@).len());
        Ok(r)
    }
}

/// The folders of the modules `names` below the modules folder.
pub open spec fn module_dirs_of(names: Seq<Seq<char>>, modules_dir: Seq<char>) -> Seq<Seq<char>> {
    Seq::new(names.len(), |i: int| modules_dir + "/"@ + names[i])
}

/// The message for an entry file that refers to the modules `missing`: it
/// shows the folder that each of them should have in the package.
pub open spec fn missing_modules_message_of(missing: Seq<Seq<char>>, modules_dir: Seq<char>)
    -> Seq<char> {
    "导入完整性校验失败：以下模块在构建目录中不存在 → "@ + join_of(
        module_dirs_of(missing, modules_dir),
        ", "@,
    )
}

/// Decides whether the rewritten entry file can be delivered: `missing` are
/// the names of the modules that it refers to and the package lacks. The
/// build fails where there is one.
pub fn check_entry_file(missing: &[String], modules_dir: &str) -> (r: AppResult<()>)
    ensures
        match r {
            Ok(_) => missing@.len() == 0,
            Err(AppError::BuildError(m)) => missing@.len() > 0 && m@ == missing_modules_message_of(
                string_views(missing@),
                modules_dir@,
            ),
            Err(_) => false,
        },
{
    if missing.len() == 0 {
        return Ok(());
    }
    let names = to_char_lists(missing);
    let dir = to_chars(modules_dir);
    let mut folders: Vec<Vec<char>> = Vec::new();
    let mut i: usize = 0;
    while i < names.len()
        invariant
            i <= names.len(),
            folders.len() == i,
            views(names@) == string_views(missing@),
            dir@ == modules_dir@,
            forall|k: int| 0 <= k < i ==> (#[trigger] folders@[k])@ == dir@ + "/"@ + names@[k]@,
        decreases names.len() - i,
    {
        let mut folder = copy_chars(&dir);
        append(&mut folder, &to_chars("/"));
        append(&mut folder, &names[i]);
        folders.push(folder);
        i += 1;
    }
    assert(views(folders@) =~= module_dirs_of(string_views(missing@), modules_dir@)) by {
        assert(views(names@).len() == names@.len());
        assert forall|k: int| 0 <= k < names@.len() implies views(folders@)[k] == module_dirs_of(
            string_views(missing@),
            modules_dir@,
        )[k] by {
            assert(views(names@)[k] == names@[k]@);
        }
    }
    let mut m = to_chars("导入完整性校验失败：以下模块在构建目录中不存在 → ");
    append(&mut m, &join(&folders, &to_chars(", ")));
    Err(AppError::BuildError(from_chars(&m)))
}

/// The result of a build that ended well.
pub fn build_result(plan: &BuildPlan, zip_path: String, packaged: Vec<String>) -> (r: BuildResult)
    ensures
        r.zip_path == zip_path,
        r.client_name@ == plan.client_name@,
        r.module_count == packaged@.len(),
        r.expanded_modules == packaged,
{
    BuildResult {
        zip_path,
        client_name: plan.client_name.clone(),
        module_count: packaged.len(),
        expanded_modules: packaged,
    }
}

// ---------------------------------------------------------------------------
// The time of a build
// ---------------------------------------------------------------------------
/// A point in time, in the calendar of UTC.
#[derive(Debug, Clone, Copy, PartialEq, Eq, Structural)]
pub struct UtcTime {
    /// The year.
    pub year: i32,
    /// The month, from 1 for January.
    pub month: u8,
    /// The day of the month, from 1.
    pub day: u8,
    /// The hour of the day, from 0.
    pub hour: u8,
    /// The minute of the hour.
    pub minute: u8,
    /// The second of the minute.
    pub second: u8,
}

/// Reads the clock by `time::OffsetDateTime::now_utc` and takes the fields
/// of the answer. The contract claims the ranges that the crate documents for
/// the fields, and nothing of the time itself.
#[verifier::external_body]
pub(crate) fn utc_now() -> (t: UtcTime)
    ensures
        1 <= t.month <= 12,
        1 <= t.day <= 31,
        t.hour < 24,
        t.minute < 60,
        t.second < 60,
{
    let now = time::OffsetDateTime::now_utc();
    UtcTime {
        year: now.year(),
        month: now.month() as u8,
        day: now.day(),
        hour: now.hour(),
        minute: now.minute(),
        second: now.second(),
    }
}

/// The year `year` in four digits at least; a year before the year 0 has its
/// sign in place of the first digit.
pub open spec fn year_text_of(year: i32) -> Seq<char> {
    if year < 0 {
        "-"@ + zero_padded_of(decimal_of((-year) as nat), 3)
    } else {
        zero_padded_of(decimal_of(year as nat), 4)
    }
}

/// The text `yyyyMMdd_HHmmss` of the time `t`.
pub open spec fn timestamp_of(t: UtcTime) -> Seq<char> {
    year_text_of(t.year) + zero_padded_of(decimal_of(t.month as nat), 2) + zero_padded_of(
        decimal_of(t.day as nat),
        2,
    ) + "_"@ + zero_padded_of(decimal_of(t.hour as nat), 2) + zero_padded_of(
        decimal_of(t.minute as nat),
        2,
    ) + zero_padded_of(decimal_of(t.second as nat), 2)
}

/// The text `yyyyMMdd_HHmmss` of the time `t`, each field with leading
/// zeros.
pub fn format_timestamp(t: UtcTime) -> (r: String)
    ensures
        r@ == timestamp_of(t),
{
    let mut out: Vec<char> = if t.year < 0 {
        let mut y = to_chars("-");
        append(&mut y, &zero_padded((-(t.year as i64)) as u64, 3));
        y
    } else {
        zero_padded(t.year as u64, 4)
    };
    append(&mut out, &zero_padded(t.month as u64, 2));
    append(&mut out, &zero_padded(t.day as u64, 2));
    append(&mut out, &to_chars("_"));
    append(&mut out, &zero_padded(t.hour as u64, 2));
    append(&mut out, &zero_padded(t.minute as u64, 2));
    append(&mut out, &zero_padded(t.second as u64, 2));
    from_chars(&out)
}

/// The text `yyyyMMdd_HHmmss` of the present time in UTC. With a year of
/// four digits the text has fifteen characters.
pub fn timestamp_suffix() -> (r: String)
    ensures
        exists|t: UtcTime|
            r@ == timestamp_of(t) && 1 <= t.month <= 12 && 1 <= t.day <= 31 && t.hour < 24
                && t.minute < 60 && t.second < 60,
{
    let t = utc_now();
    format_timestamp(t)
}

} // verus!
